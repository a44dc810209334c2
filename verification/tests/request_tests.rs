use nodes_n_procs::nodes::request::request::Request;
use nodes_n_procs::nodes::request::request_queue::{
    GetQuestionError, PutAnswerError, QueueRequestPostError, QueueRequestQueryError, RequestQueue,
    RequestQueueClientEndpoint, RequestQueueServerEndpoint,
};
use nodes_n_procs::nodes::request::conversion::converter::RequestConverter;
use nodes_n_procs::nodes::request::conversion::queue_to_simple_req_converter::Queue2SimpleRequestConverter;
use nodes_n_procs::nodes::queue::request::Request as OldRequest;

#[test]
fn request_goes_around_its_states() {
    let mut req: Request<u32, u32> = Request::default();
    assert!(req.is_standing_by());
    assert!(req.put_question(7).is_ok());
    assert!(req.is_question());
    assert_eq!(req.peek_question(), Some(&7));
    assert_eq!(req.take_question(), Some(7));
    assert!(req.is_waiting());
    assert!(req.put_answer(49).is_ok());
    assert!(req.is_answer());
    assert_eq!(req.peek_answer(), Some(&49));
    assert_eq!(req.take_answer(), Some(49));
    assert!(req.is_standing_by());
}

#[test]
fn request_refuses_out_of_turn() {
    let mut req: Request<u32, u32> = Request::default();
    assert_eq!(req.put_answer(1), Err(1));
    assert_eq!(req.take_question(), None);
    assert_eq!(req.take_answer(), None);
    assert!(req.put_question(2).is_ok());
    assert_eq!(req.put_question(3), Err(3));
    assert_eq!(req.take_answer(), None);
}

#[test]
fn request_take_answer_if_checks_the_answer() {
    let mut req: Request<u32, u32> = Request::default();
    req.put_question(1).unwrap();
    req.take_question().unwrap();
    req.put_answer(10).unwrap();
    assert_eq!(req.take_answer_if(|a| *a > 20), None);
    assert!(req.is_answer());
    assert_eq!(req.take_answer_if(|a| *a == 10), Some(10));
    assert!(req.is_standing_by());
}

#[test]
fn old_request_has_answer() {
    let r: OldRequest<u8, u8> = OldRequest::Answer(3);
    assert!(r.has_answer());
    let q: OldRequest<u8, u8> = OldRequest::Question(3);
    assert!(!q.has_answer());
}

#[test]
fn queue_round_trip_between_client_and_server() {
    let mut queue: RequestQueue<u32, String, 4> = RequestQueue::new();
    let mut client: RequestQueueClientEndpoint<u32, String> = RequestQueueClientEndpoint::new();
    let mut server: RequestQueueServerEndpoint<u32, String> = RequestQueueServerEndpoint::new();
    assert!(!client.has_request());
    assert!(client.try_post_request(&mut queue, 5).is_ok());
    assert!(client.has_request());
    let id = client.current_request_id().unwrap();
    assert_eq!(client.is_ready(&queue, id), Ok(false));
    assert!(matches!(client.try_take_answer(&mut queue), Ok(None)));
    let question = server.get_question(&mut queue).unwrap();
    assert_eq!(question, Some(5));
    assert!(server.has_request());
    assert!(server.put_answer(&mut queue, String::from("five")).is_ok());
    assert_eq!(client.is_ready(&queue, id), Ok(true));
    let answer = client.try_take_answer(&mut queue).unwrap();
    assert_eq!(answer, Some(String::from("five")));
    assert!(!client.has_request());
    assert_eq!(client.is_ready(&queue, id), Err(QueueRequestQueryError::RequestNotFound));
}

#[test]
fn queue_refusals() {
    let mut queue: RequestQueue<u32, u32, 1> = RequestQueue::new();
    let mut client: RequestQueueClientEndpoint<u32, u32> = RequestQueueClientEndpoint::new();
    let mut other: RequestQueueClientEndpoint<u32, u32> = RequestQueueClientEndpoint::new();
    let mut server: RequestQueueServerEndpoint<u32, u32> = RequestQueueServerEndpoint::new();
    assert!(matches!(client.try_take_answer(&mut queue), Err(QueueRequestQueryError::NoRequest)));
    assert!(matches!(server.put_answer(&mut queue, 1), Err((PutAnswerError::NoRequestId, 1))));
    assert!(server.get_question(&mut queue).unwrap().is_none());
    client.try_post_request(&mut queue, 1).unwrap();
    assert!(matches!(client.try_post_request(&mut queue, 2), Err((QueueRequestPostError::AlreadyHasRequest, 2))));
    assert!(matches!(other.try_post_request(&mut queue, 3), Err((QueueRequestPostError::QueueFull, 3))));
    assert_eq!(server.get_question(&mut queue).unwrap(), Some(1));
    assert!(matches!(server.get_question(&mut queue), Err(GetQuestionError::AlreadyHasQuestion)));
}

#[test]
fn queue_serves_questions_in_order() {
    let mut queue: RequestQueue<u32, u32, 3> = RequestQueue::new();
    let mut c1: RequestQueueClientEndpoint<u32, u32> = RequestQueueClientEndpoint::new();
    let mut c2: RequestQueueClientEndpoint<u32, u32> = RequestQueueClientEndpoint::new();
    let mut server: RequestQueueServerEndpoint<u32, u32> = RequestQueueServerEndpoint::new();
    c1.try_post_request(&mut queue, 10).unwrap();
    c2.try_post_request(&mut queue, 20).unwrap();
    assert_ne!(c1.current_request_id(), c2.current_request_id());
    assert_eq!(server.get_question(&mut queue).unwrap(), Some(10));
    server.put_answer(&mut queue, 11).unwrap();
    let mut server2: RequestQueueServerEndpoint<u32, u32> = RequestQueueServerEndpoint::new();
    assert_eq!(server2.get_question(&mut queue).unwrap(), Some(20));
    server2.put_answer(&mut queue, 21).unwrap();
    assert_eq!(c2.try_take_answer(&mut queue).unwrap(), Some(21));
    assert_eq!(c1.try_take_answer(&mut queue).unwrap(), Some(11));
}

#[test]
fn converter_carries_questions_and_answers() {
    let mut conv = RequestConverter::new_from_fns(|q: u32| q * 2, |a: u64| a as u32 + 1);
    let mut front: Request<u32, u32> = Request::default();
    let mut back: Request<u32, u64> = Request::default();
    front.put_question(21).unwrap();
    conv.resume(&mut front, &mut back);
    assert!(front.is_waiting());
    assert_eq!(back.take_question(), Some(42));
    back.put_answer(100).unwrap();
    conv.resume(&mut front, &mut back);
    assert!(back.is_standing_by());
    assert_eq!(front.take_answer(), Some(101));
}

#[test]
fn queue_to_simple_request_converter_forwards() {
    let mut queue: RequestQueue<u32, u32, 2> = RequestQueue::new();
    let mut client: RequestQueueClientEndpoint<u32, u32> = RequestQueueClientEndpoint::new();
    let mut simple: Request<u32, u32> = Request::default();
    let mut conv: Queue2SimpleRequestConverter<u32, u32, 2> = Queue2SimpleRequestConverter::new();
    client.try_post_request(&mut queue, 3).unwrap();
    conv.resume(&mut queue, &mut simple);
    assert_eq!(simple.take_question(), Some(3));
    simple.put_answer(9).unwrap();
    conv.resume(&mut queue, &mut simple);
    assert_eq!(client.try_take_answer(&mut queue).unwrap(), Some(9));
}

#[test]
fn converter_from_fns_uses_each_fn_on_its_side() {
    let mut conv = RequestConverter::new_from_fns(|q: u32| q + 100, |a: u32| a * 2);
    let mut front: Request<u32, u32> = Request::Question(1);
    let mut back: Request<u32, u32> = Request::StandingBy;
    conv.resume(&mut front, &mut back);
    assert!(front == Request::Processing);
    assert!(back == Request::Question(101));
    back = Request::Answer(7);
    conv.resume(&mut front, &mut back);
    assert!(front == Request::Answer(14));
    assert!(back == Request::StandingBy);
}

#[test]
fn request_default_stands_by() {
    let mut r: Request<u8, u16> = Request::default();
    assert!(r.is_standing_by());
    assert_eq!(r.put_question(3), Ok(()));
    assert_eq!(r.take_question(), Some(3));
    assert!(r == Request::Processing);
    assert_eq!(r.put_answer(30), Ok(()));
    assert_eq!(r.take_answer(), Some(30));
    assert!(r == Request::StandingBy);
    assert_eq!(r.take_answer(), None);
}
