//! The request queue, its client and server endpoints and their errors; one
//! queue serves both request modules.
pub use crate::nodes::request::request_queue::{
    GetQuestionError, PutAnswerError, QueueRequestPostError, QueueRequestQueryError, RequestIdentifier,
    RequestQueue, RequestQueueClientEndpoint, RequestQueueServerEndpoint, SituationChangeError,
};
