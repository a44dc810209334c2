use std::cell::Cell;
use nodes_n_procs::base::nodes::io::bounce_cleaner::{cleaned_level, BounceCleaner};
use nodes_n_procs::nodes::io::bounce_cleaner::BounceCleaner as ProcBounceCleaner;
use nodes_n_procs::base::common_types::cat_types::{Functor, Monad, MonadBind};
use nodes_n_procs::base::common_types::digital_value::DigitalValue;
use nodes_n_procs::base::common_types::interleaver::Interleaver;
use nodes_n_procs::base::nodes::base::node::{Node, NodeBorrowError, NodeRef};
use nodes_n_procs::base::nodes::base::proc::SimpleProcess;
use nodes_n_procs::base::nodes::sampling::sample_timer::SampleTimer;
use nodes_n_procs::base::nodes::function::func::{
    input_changed, BinaryFunc, IntoPure, PureBinaryFunc, PureUnaryFunc, UnaryFunc,
};
use nodes_n_procs::base::nodes::function::signal_gen::{pwm_wave_is_up, square_wave_is_up, TimeFunc};
use nodes_n_procs::base::nodes::io::logger::{unwritten_samples, LogWriter as BaseLogWriter, Logger};
use nodes_n_procs::base::nodes::sampling::sample_history::{Direction, FullIndex, SampleHistory};
use nodes_n_procs::base::nodes::io::pwm::{get_duration, pwm_level, PwmGenerator};
use nodes_n_procs::base::nodes::io::serial::line_separator::{LineSeparator, ReadFinished};
use nodes_n_procs::base::nodes::io::serial::writer::{WordWritten, WriterProc};
use nodes_n_procs::base::nodes::sampling::periodic_sampler::PeriodicSampler;
use nodes_n_procs::base::nodes::sampling::sample_latcher::SampleLatcher;
use nodes_n_procs::base::nodes::sampling::sample_node::{try_has_value, SampleNode};
use nodes_n_procs::base::nodes::timing::clock::{ClockNode, ClockProcess, ClockReading, TimeGetter};
use nodes_n_procs::collections::bounded_deque::Deque;

#[test]
fn node_lends_its_value() {
    let node = Node::new(5u32);
    let mut r = node.make_ref();
    {
        let b = r.try_borrow().unwrap();
        assert_eq!(*b, 5);
    }
    assert_eq!(r.try_replace(6), Ok(5));
    let other = NodeRef::new(&node);
    assert_eq!(*other.try_borrow().unwrap(), 6);
    let cloned = other.clone();
    assert_eq!(*cloned.try_borrow().unwrap(), 6);
}

#[test]
fn node_refuses_a_write_while_it_is_read() {
    let node = Node::new(1u8);
    let reader = node.make_ref();
    let mut writer = node.make_ref();
    let guard = reader.try_borrow().unwrap();
    assert!(writer.try_borrow_mut().is_err());
    assert_eq!(writer.try_replace(2), Err(2));
    drop(guard);
    assert_eq!(writer.try_replace(2), Ok(1));
}

#[test]
fn digital_value_round_trips_through_bool() {
    assert!(DigitalValue::from(true) == DigitalValue::High);
    assert!(DigitalValue::from(false) == DigitalValue::Low);
    let b: bool = DigitalValue::High.into();
    assert!(b);
    let b: bool = DigitalValue::Low.into();
    assert!(!b);
}

#[test]
fn option_maps_and_binds() {
    assert_eq!(Some(2).f_map(|x: i32| x * 3), Some(6));
    assert_eq!(None::<i32>.f_map(|x: i32| x * 3), None);
    assert_eq!(<Option<i32> as Monad>::m_return(4), Some(4));
    assert_eq!(Some(4).m_bind(|x: i32| if x > 3 { Some(x - 3) } else { None }), Some(1));
    assert_eq!(Some(2).m_bind(|x: i32| if x > 3 { Some(x - 3) } else { None }), None);
    assert_eq!(None::<i32>.m_bind(|x: i32| Some(x)), None);
}

#[test]
fn interleaver_holds_its_iterators() {
    let _i: Interleaver<u8, Vec<Vec<u8>>> = Interleaver::new(vec![vec![1u8], vec![2u8]]);
}

#[test]
fn unary_func_writes_the_function_of_its_input() {
    let input = Node::new(3i32);
    let output = Node::new(0i32);
    let mut f = UnaryFunc { output: output.make_ref(), input: input.make_ref(), func: |x: &i32| x * 2 };
    assert!(f.next(&0).is_ok());
    assert_eq!(*output.make_ref().try_borrow().unwrap(), 6);
}

#[test]
fn unary_func_reports_a_refused_borrow() {
    let input = Node::new(3i32);
    let output = Node::new(0i32);
    let mut holder = input.make_ref();
    let _guard = holder.try_borrow_mut().unwrap();
    let mut f = UnaryFunc { output: output.make_ref(), input: input.make_ref(), func: |x: &i32| x * 2 };
    assert!(matches!(f.next(&0), Err(NodeBorrowError::Borrow(_))));
    assert_eq!(*output.make_ref().try_borrow().unwrap(), 0);
}

#[test]
fn binary_func_writes_the_function_of_its_inputs() {
    let a = Node::new(3i32);
    let b = Node::new(4i32);
    let out = Node::new(0i32);
    let mut f = BinaryFunc { output: out.make_ref(), input_1: a.make_ref(), input_2: b.make_ref(), func: |x: &i32, y: &i32| x + y };
    assert!(f.next(&0).is_ok());
    assert_eq!(*out.make_ref().try_borrow().unwrap(), 7);
}

#[test]
fn pure_unary_func_runs_only_when_the_input_changes() {
    let calls = Cell::new(0u32);
    let input = Node::new(3i32);
    let output = Node::new(0i32);
    let mut f = PureUnaryFunc::new(input.make_ref(), output.make_ref(), |x: &i32| {
        calls.set(calls.get() + 1);
        x + 1
    });
    f.next(&0).unwrap();
    f.next(&1).unwrap();
    assert_eq!(calls.get(), 1);
    assert_eq!(*output.make_ref().try_borrow().unwrap(), 4);
    input.make_ref().try_replace(10).unwrap();
    f.next(&2).unwrap();
    assert_eq!(calls.get(), 2);
    assert_eq!(*output.make_ref().try_borrow().unwrap(), 11);
}

#[test]
fn pure_binary_func_runs_only_when_an_input_changes() {
    let calls = Cell::new(0u32);
    let a = Node::new(1i32);
    let b = Node::new(2i32);
    let out = Node::new(0i32);
    let mut f = PureBinaryFunc::new(a.make_ref(), b.make_ref(), out.make_ref(), |x: &i32, y: &i32| {
        calls.set(calls.get() + 1);
        x * y
    });
    f.next(&0).unwrap();
    f.next(&0).unwrap();
    assert_eq!(calls.get(), 1);
    b.make_ref().try_replace(5).unwrap();
    f.next(&0).unwrap();
    assert_eq!(calls.get(), 2);
    assert_eq!(*out.make_ref().try_borrow().unwrap(), 5);
}

fn minus_one(x: &i32) -> i32 {
    x - 1
}

#[test]
fn into_pure_keeps_the_nodes_and_function() {
    let input = Node::new(2i32);
    let output = Node::new(0i32);
    let f = UnaryFunc { output: output.make_ref(), input: input.make_ref(), func: minus_one };
    let mut p = f.into_pure();
    p.next(&0).unwrap();
    assert_eq!(*output.make_ref().try_borrow().unwrap(), 1);
}

#[test]
fn input_changed_without_a_cache_or_on_a_new_input() {
    assert!(input_changed(&None, &1));
    assert!(!input_changed(&Some(1), &1));
    assert!(input_changed(&Some(1), &2));
}

#[test]
fn time_func_writes_the_function_of_the_time() {
    let out = Node::new(0u64);
    let mut f = TimeFunc::new(|t: &u64| t * 10, out.make_ref());
    f.next(&7).unwrap();
    assert_eq!(*out.make_ref().try_borrow().unwrap(), 70);
}

#[test]
fn square_wave_is_up_in_the_first_half_of_its_cycle() {
    assert!(square_wave_is_up(&0, 100, 0));
    assert!(square_wave_is_up(&50, 100, 0));
    assert!(!square_wave_is_up(&51, 100, 0));
    assert!(square_wave_is_up(&150, 100, 0));
    assert!(!square_wave_is_up(&30, 100, 25));
}

#[test]
fn pwm_wave_is_up_for_the_asked_duration() {
    assert!(pwm_wave_is_up(30, &130, 100, 0));
    assert!(!pwm_wave_is_up(30, &131, 100, 0));
    assert!(pwm_wave_is_up(30, &95, 100, 10));
}

#[test]
fn pwm_level_and_cached_duration() {
    assert!(pwm_level(5, 10) == DigitalValue::High);
    assert!(pwm_level(10, 10) == DigitalValue::High);
    assert!(pwm_level(11, 10) == DigitalValue::Low);
    let mut cache: Option<(u8, u64)> = None;
    let tenths = |d: &u64, i: &u8| d * (*i as u64) / 10;
    assert_eq!(get_duration(&mut cache, &3, &100, tenths), 30);
    assert_eq!(get_duration(&mut cache, &3, &100, |_: &u64, _: &u8| 99), 30);
    assert_eq!(get_duration(&mut cache, &4, &100, tenths), 40);
    assert_eq!(cache, Some((4, 40)));
}

#[test]
fn base_line_separator_reads_from_the_back() {
    let mut chars: Deque<char, 8> = Deque::new();
    for c in "\nba\ndc".chars() {
        chars.push_back(c).unwrap();
    }
    let mut lines: Deque<String, 4> = Deque::new();
    let mut buffer = String::new();
    LineSeparator::<4, 8>::read_many(&mut chars, &mut lines, &mut buffer);
    assert_eq!(lines.pop_front(), Some(String::from("ab")));
    assert_eq!(lines.pop_front(), Some(String::from("cd")));
    assert_eq!(lines.pop_front(), None);
    assert!(chars.is_empty());
    assert_eq!(buffer, String::new());
}

#[test]
fn base_line_separator_read_reports_how_it_ended() {
    let mut chars: Deque<char, 4> = Deque::new();
    chars.push_back('x').unwrap();
    let mut buffer = String::new();
    assert!(LineSeparator::<2, 4>::read(&mut chars, &mut buffer) == ReadFinished::InputDepleted);
    assert_eq!(buffer, String::from("x"));
    chars.push_back('\r').unwrap();
    assert!(LineSeparator::<2, 4>::read(&mut chars, &mut buffer) == ReadFinished::LineFinished);
}

#[test]
fn base_writer_steps_write_from_the_back() {
    let node: Node<Deque<u8, 4>> = Node::new(Deque::new());
    let mut proc: WriterProc<4, u8, u32> = WriterProc::new(0, &node);
    *proc.writer_mut() = 3;
    assert_eq!(*proc.writer_mut(), 3);
    let mut d: Deque<u8, 4> = Deque::new();
    d.push_back(1).unwrap();
    d.push_back(2).unwrap();
    assert_eq!(WriterProc::<4, u8, u32>::word_to_write(&d), Some(2));
    assert!(WriterProc::<4, u8, u32>::accept_write(&mut d, WordWritten::Written));
    assert_eq!(WriterProc::<4, u8, u32>::word_to_write(&d), Some(1));
    assert!(!WriterProc::<4, u8, u32>::accept_write(&mut d, WordWritten::Refused));
    assert_eq!(d.len(), 1);
}

#[test]
fn sample_latcher_copies_a_sample() {
    let latch = Node::new(0u8);
    let sample: SampleNode<u8> = Node::new(None);
    let mut l = SampleLatcher::new(&latch, &sample);
    l.next().unwrap();
    assert_eq!(*latch.make_ref().try_borrow().unwrap(), 0);
    sample.make_ref().try_replace(Some(9)).unwrap();
    l.next().unwrap();
    assert_eq!(*latch.make_ref().try_borrow().unwrap(), 9);
    assert!(try_has_value(&sample.make_ref()).unwrap());
}

#[test]
fn periodic_sampler_samples_once_per_period() {
    let input = Node::new(4u8);
    let output: SampleNode<u8> = Node::new(None);
    let mut s = PeriodicSampler::new(input.make_ref(), output.make_ref(), 100);
    s.next(&50).unwrap();
    assert_eq!(*output.make_ref().try_borrow().unwrap(), None);
    s.next(&120).unwrap();
    assert_eq!(*output.make_ref().try_borrow().unwrap(), Some(4));
    s.next(&150).unwrap();
    assert_eq!(*output.make_ref().try_borrow().unwrap(), None);
}

struct Ticks(u64);

impl TimeGetter for Ticks {
    fn get_current_time(&mut self) -> u64 {
        self.0
    }
}

#[test]
fn clock_reading_advances() {
    let mut r = ClockReading { current_time: 10, delta_time: 0 };
    r.advance(25);
    assert_eq!(r.current_time, 25);
    assert_eq!(r.delta_time, 15);
    let node: ClockNode = Node::new(r);
    let mut p = ClockProcess::new(Ticks(30), &node);
    assert_eq!(p.read_time(), 30);
    assert_eq!(p.clock_node().try_borrow().unwrap().current_time, 25);
}

#[test]
fn sample_timer_marks_samples_with_the_clock() {
    let input: SampleNode<u8> = Node::new(None);
    let clock: ClockNode = Node::new(ClockReading { current_time: 7, delta_time: 2 });
    let output: SampleNode<ClockReading> = Node::new(None);
    let mut t = SampleTimer::new(input.make_ref(), clock.make_ref(), output.make_ref());
    t.next().unwrap();
    assert!(output.make_ref().try_borrow().unwrap().is_none());
    input.make_ref().try_replace(Some(1)).unwrap();
    t.next().unwrap();
    assert!(*output.make_ref().try_borrow().unwrap() == Some(ClockReading { current_time: 7, delta_time: 2 }));
    input.make_ref().try_replace(None).unwrap();
    t.next().unwrap();
    assert!(output.make_ref().try_borrow().unwrap().is_none());
}

#[test]
fn base_line_separator_process_moves_lines_between_nodes() {
    let chars_node: Node<Deque<char, 8>> = Node::new(Deque::new());
    let lines_node: Node<Deque<String, 2>> = Node::new(Deque::new());
    {
        let mut r = chars_node.make_ref();
        let mut g = r.try_borrow_mut().unwrap();
        for c in "yx".chars() {
            g.push_back(c).unwrap();
        }
    }
    let mut sep = LineSeparator::<2, 8>::new(&chars_node, &lines_node);
    sep.next().unwrap();
    let mut lr = lines_node.make_ref();
    let mut lines = lr.try_borrow_mut().unwrap();
    assert_eq!(lines.pop_front(), None);
    drop(lines);
    let mut r = chars_node.make_ref();
    {
        let mut g = r.try_borrow_mut().unwrap();
        assert!(g.is_empty());
        g.push_back('\n').unwrap();
    }
    sep.next().unwrap();
    let mut lines = lr.try_borrow_mut().unwrap();
    assert_eq!(lines.pop_front(), Some(String::from("xy")));
}

#[test]
fn pwm_generator_step_compares_the_time_in_the_cycle() {
    let input = Node::new(5u8);
    let clock: ClockNode = Node::new(ClockReading { current_time: 0, delta_time: 0 });
    let output = Node::new(DigitalValue::Low);
    let mut g = PwmGenerator::new(input.make_ref(), clock.make_ref(), output.make_ref(), 100);
    let duty = |d: &u64, i: &u8| d / 100 * (*i as u64);
    assert!(g.step(&1030, &5, duty) == DigitalValue::High);
    assert_eq!(g.current_cycle_start(), 1000);
    assert!(g.step(&1070, &5, duty) == DigitalValue::Low);
    assert_eq!(g.current_cycle_start(), 1000);
}

#[test]
fn base_logger_logs_once_per_cycle() {
    let value = Node::new(7u32);
    let history: Node<SampleHistory<String, 4>> = Node::new(SampleHistory::new());
    let mut logger = Logger::new(value.make_ref(), history.make_ref(), |v: &u32| format!("{}", v), 100);
    assert!(!logger.update_cycles(&50));
    assert!(logger.update_cycles(&250));
    assert_eq!(logger.current_cycle_start(), 200);
    let mut h: SampleHistory<String, 4> = SampleHistory::new();
    logger.log(&7, &mut h);
    logger.log(&8, &mut h);
    assert_eq!(h.full_len(), 2);
    assert_eq!(h.get(1).unwrap().value, "8");
    let _n = logger.node_ref();
    let _q = logger.msg_queue_ref();
}

#[test]
fn base_history_saver_pushes_a_clone() {
    use_saver();
}

fn use_saver() {
    let input: SampleNode<u8> = Node::new(Some(3));
    let history: Node<SampleHistory<u8, 2>> = Node::new(SampleHistory::new());
    let saver = nodes_n_procs::base::nodes::sampling::sample_history_saver::SampleHistorySaver::new(
        input.make_ref(),
        history.make_ref(),
    );
    let mut h: SampleHistory<u8, 2> = SampleHistory::new();
    nodes_n_procs::base::nodes::sampling::sample_history_saver::SampleHistorySaver::<u8, 2>::save(&5, &mut h);
    nodes_n_procs::base::nodes::sampling::sample_history_saver::SampleHistorySaver::<u8, 2>::save(&6, &mut h);
    assert_eq!(*h.get(1).unwrap().value, 6);
    assert!(saver.input_node().try_has_value().unwrap());
    assert_eq!(saver.output_node().try_borrow().unwrap().full_len(), 0);
}

#[test]
fn unwritten_samples_of_a_history() {
    let mut h: SampleHistory<u32, 3> = SampleHistory::new();
    assert!(unwritten_samples(&h, &FullIndex(0)).is_none());
    for v in 0..5u32 {
        h.push_sample(v);
    }
    // kept: full indices 2, 3, 4
    let r = unwritten_samples(&h, &FullIndex(2)).unwrap();
    assert_eq!(r.0, 1);
    assert_eq!((r.1).0, 4);
    let r = unwritten_samples(&h, &FullIndex(0)).unwrap();
    assert_eq!(r.0, 0);
    assert_eq!((r.1).0, 4);
    let r = unwritten_samples(&h, &FullIndex(3)).unwrap();
    assert_eq!(r.0, 2);
    assert!(unwritten_samples(&h, &FullIndex(4)).is_none());
    assert!(unwritten_samples(&h, &FullIndex(9)).is_none());
}

#[test]
fn base_process_steps_on_values() {
    assert_eq!(SampleLatcher::<u8>::latched(&Some(5)), Some(5));
    assert_eq!(SampleLatcher::<u8>::latched(&None), None);

    let mut out: Option<u8> = Some(1);
    PeriodicSampler::<u8>::sample_turn(0, None, &mut out);
    assert_eq!(out, None);
    PeriodicSampler::<u8>::sample_turn(2, Some(&8), &mut out);
    assert_eq!(out, Some(8));

    let input: SampleNode<u8> = Node::new(None);
    let clock: ClockNode = Node::new(ClockReading { current_time: 3, delta_time: 1 });
    let output: SampleNode<ClockReading> = Node::new(None);
    let t = SampleTimer::new(input.make_ref(), clock.make_ref(), output.make_ref());
    assert!(t.output_change(None).is_none());
    let reading = ClockReading { current_time: 4, delta_time: 1 };
    assert!(t.output_change(Some(reading)) == Some(Some(reading)));

    let a = Node::new(0i32);
    let o = Node::new(0i32);
    let mut f = PureUnaryFunc::new(a.make_ref(), o.make_ref(), |x: &i32| x * 3);
    assert_eq!(f.turn(&2), Some(6));
    f.record(&2);
    assert_eq!(f.turn(&2), None);
    assert_eq!(f.turn(&4), Some(12));
}

#[test]
fn pure_binary_func_keeps_the_argument_order() {
    let a = Node::new(10i32);
    let b = Node::new(3i32);
    let o = Node::new(0i32);
    let mut p = PureBinaryFunc::new(a.make_ref(), b.make_ref(), o.make_ref(), |x: &i32, y: &i32| x - y);
    assert_eq!(p.turn(&10, &3), Some(7));
    assert!(p.next(&0).is_ok());
    assert_eq!(*o.make_ref().try_borrow().unwrap(), 7);
    assert_eq!(p.turn(&10, &3), None);
}

#[test]
fn unary_func_borrows_the_output_before_calling_its_function() {
    let calls = Cell::new(0u32);
    let input = Node::new(3i32);
    let output = Node::new(0i32);
    let mut f = UnaryFunc {
        output: output.make_ref(),
        input: input.make_ref(),
        func: |x: &i32| {
            calls.set(calls.get() + 1);
            x * 2
        },
    };
    {
        let holder = output.make_ref();
        let _guard = holder.try_borrow().unwrap();
        assert!(matches!(f.next(&0), Err(NodeBorrowError::BorrowMut(_))));
    }
    assert_eq!(calls.get(), 0);
    assert!(f.next(&0).is_ok());
    assert_eq!(calls.get(), 1);
    assert_eq!(*output.make_ref().try_borrow().unwrap(), 6);
}

#[test]
fn sample_latcher_reports_a_borrowed_output() {
    let latch = Node::new(0u8);
    let sample: SampleNode<u8> = Node::new(Some(4));
    let mut l = SampleLatcher::new(&latch, &sample);
    {
        let holder = latch.make_ref();
        let _guard = holder.try_borrow().unwrap();
        assert!(matches!(l.next(), Err(NodeBorrowError::BorrowMut(_))));
    }
    l.next().unwrap();
    assert_eq!(*latch.make_ref().try_borrow().unwrap(), 4);
}

#[test]
fn base_log_writer_writes_each_message_once_oldest_first() {
    let written = std::cell::RefCell::new(Vec::<String>::new());
    let history: Node<SampleHistory<String, 3>> = Node::new(SampleHistory::new());
    let mut w = BaseLogWriter::new(history.make_ref(), FullIndex(0), |s: &String| written.borrow_mut().push(s.clone()));
    w.next(&0).unwrap();
    assert!(written.borrow().is_empty());
    {
        let mut r = history.make_ref();
        let mut h = r.try_borrow_mut().unwrap();
        for m in ["a", "b", "c", "d"] {
            h.push_sample(String::from(m));
        }
    }
    w.next(&1).unwrap();
    assert_eq!(*written.borrow(), vec![String::from("b"), String::from("c"), String::from("d")]);
    assert_eq!(w.last_written_index().0, 3);
    w.next(&2).unwrap();
    assert_eq!(written.borrow().len(), 3);
    {
        let mut r = history.make_ref();
        let mut h = r.try_borrow_mut().unwrap();
        h.push_sample(String::from("e"));
    }
    let holder = history.make_ref();
    {
        let _g = holder.try_borrow().unwrap();
        assert!(matches!(w.next(&3), Err(NodeBorrowError::BorrowMut(_))));
    }
    w.next(&4).unwrap();
    assert_eq!(written.borrow().last().unwrap(), "e");
    assert_eq!(w.last_written_index().0, 4);
}

#[test]
fn bounce_cleaners_vote_over_the_history() {
    let mut h: SampleHistory<DigitalValue, 4> = SampleHistory::new();
    assert!(cleaned_level(&h) == DigitalValue::Low);
    h.push_sample(DigitalValue::High);
    assert!(cleaned_level(&h) == DigitalValue::Low);
    h.push_sample(DigitalValue::Low);
    h.push_sample(DigitalValue::High);
    assert!(cleaned_level(&h) == DigitalValue::High);

    let node: Node<SampleHistory<DigitalValue, 4>> = Node::new(SampleHistory::new());
    let out = Node::new(DigitalValue::Low);
    let mut c = BounceCleaner::new(node.make_ref(), out.make_ref());
    c.next(&0).unwrap();
    assert_eq!(c.last_sample(), 0);
    {
        let mut r = node.make_ref();
        let mut g = r.try_borrow_mut().unwrap();
        g.push_sample(DigitalValue::High);
        g.push_sample(DigitalValue::High);
    }
    c.next(&1).unwrap();
    assert_eq!(c.last_sample(), 2);
    assert!(*out.make_ref().try_borrow().unwrap() == DigitalValue::High);

    let mut p: ProcBounceCleaner<4> = ProcBounceCleaner::new();
    let mut level = DigitalValue::Low;
    let mut h2: SampleHistory<DigitalValue, 4> = SampleHistory::new();
    h2.push_sample(DigitalValue::High);
    p.resume(&h2, &mut level);
    assert!(level == DigitalValue::Low);
    h2.push_sample(DigitalValue::High);
    p.resume(&h2, &mut level);
    assert!(level == DigitalValue::High);
    h2.push_sample(DigitalValue::Low);
    h2.push_sample(DigitalValue::Low);
    h2.push_sample(DigitalValue::Low);
    level = DigitalValue::High;
    p.resume(&h2, &mut level);
    assert!(level == DigitalValue::Low);
}

#[test]
fn sample_history_lists_its_samples_both_ways() {
    let mut h: SampleHistory<u32, 3> = SampleHistory::new();
    assert!(h.get_samples(Direction::DownCounting).is_empty());
    for v in [10u32, 11, 12, 13] {
        h.push_sample(v);
    }
    let down = h.get_samples(Direction::DownCounting);
    let down_values: Vec<(usize, u32)> = down.iter().map(|s| (s.index.0, *s.value)).collect();
    assert_eq!(down_values, vec![(1, 11), (2, 12), (3, 13)]);
    let up = h.get_samples(Direction::UpCounting);
    let up_values: Vec<(usize, u32)> = up.iter().map(|s| (s.index.0, *s.value)).collect();
    assert_eq!(up_values, vec![(3, 13), (2, 12), (1, 11)]);
}
