use nodes_n_procs::collections::bounded_queue::Queue;
use nodes_n_procs::nodes::io::serial::line_separator::{LineSeparator, ReadFinished};
use nodes_n_procs::nodes::io::serial::reader::{ByteToCharConverter, CharToByteConverter, ReadOutcome, ReaderProc};
use nodes_n_procs::nodes::io::serial::writer::{
    accept_read_word, accept_write, next_word, open_space, LineJoiner, ReaderWriterProc, WriteOutcome, WriterProc,
};

fn bytes_queue<const N: usize>(bytes: &[u8]) -> Queue<u8, N> {
    let mut q: Queue<u8, N> = Queue::new();
    for b in bytes {
        q.enqueue(*b).unwrap();
    }
    q
}

fn drain<T, const N: usize>(q: &mut Queue<T, N>) -> Vec<T> {
    let mut out = Vec::new();
    while let Some(x) = q.dequeue() {
        out.push(x);
    }
    out
}

#[test]
fn bounded_queue_is_fifo_with_one_slot_less() {
    let mut q: Queue<u8, 3> = Queue::new();
    assert_eq!(q.capacity(), 2);
    assert!(q.is_empty());
    assert_eq!(q.enqueue(1), Ok(()));
    assert_eq!(q.enqueue(2), Ok(()));
    assert!(q.is_full());
    assert_eq!(q.enqueue(3), Err(3));
    assert_eq!(q.peek(), Some(&1));
    assert_eq!(q.dequeue(), Some(1));
    assert_eq!(q.dequeue(), Some(2));
    assert_eq!(q.dequeue(), None);
}

#[test]
fn converter_writes_all_but_the_last_ascii_byte() {
    let mut conv: ByteToCharConverter<8, 8> = ByteToCharConverter::new();
    let mut input = bytes_queue::<8>(b"abc");
    let mut output: Queue<char, 8> = Queue::new();
    conv.execute_convertion(&mut input, &mut output);
    assert!(input.is_empty());
    assert_eq!(drain(&mut output), vec!['a', 'b']);
}

#[test]
fn converter_decodes_multibyte_characters() {
    let mut conv: ByteToCharConverter<8, 8> = ByteToCharConverter::new();
    let mut input = bytes_queue::<8>("é€x".as_bytes());
    let mut output: Queue<char, 8> = Queue::new();
    conv.execute_convertion(&mut input, &mut output);
    assert!(input.is_empty());
    assert_eq!(drain(&mut output), vec!['é', '€']);
}

#[test]
fn converter_stops_when_the_output_is_full() {
    let mut conv: ByteToCharConverter<8, 3> = ByteToCharConverter::new();
    let mut input = bytes_queue::<8>(b"abcdef");
    let mut output: Queue<char, 3> = Queue::new();
    conv.execute_convertion(&mut input, &mut output);
    assert_eq!(drain(&mut output), vec!['a', 'b']);
    assert_eq!(drain(&mut input), b"def".to_vec());
}

#[test]
fn converter_does_nothing_without_input_or_room() {
    let mut conv: ByteToCharConverter<4, 2> = ByteToCharConverter::new();
    let mut input: Queue<u8, 4> = Queue::new();
    let mut output: Queue<char, 2> = Queue::new();
    conv.execute_convertion(&mut input, &mut output);
    assert!(output.is_empty());
    output.enqueue('z').unwrap();
    let mut input = bytes_queue::<4>(b"q");
    conv.execute_convertion(&mut input, &mut output);
    assert_eq!(drain(&mut input), vec![b'q']);
    assert_eq!(drain(&mut output), vec!['z']);
}

#[test]
fn char_to_byte_converter_starts_empty() {
    let _conv: CharToByteConverter<4, 4> = CharToByteConverter::new();
}

#[test]
fn line_separator_cuts_lines() {
    let mut sep: LineSeparator<5, 16> = LineSeparator::new();
    let mut chars: Queue<char, 16> = Queue::new();
    for c in "ab\ncd\r\nef".chars() {
        chars.enqueue(c).unwrap();
    }
    let mut lines: Queue<String, 5> = Queue::new();
    sep.resume(&mut chars, &mut lines);
    assert_eq!(drain(&mut lines), vec![String::from("ab"), String::from("cd"), String::new()]);
    assert!(chars.is_empty());
    let mut more: Queue<char, 16> = Queue::new();
    more.enqueue('g').unwrap();
    more.enqueue('\n').unwrap();
    sep.resume(&mut more, &mut lines);
    assert_eq!(drain(&mut lines), vec![String::from("efg")]);
}

#[test]
fn line_separator_read_stops_at_a_line_end() {
    let mut sep: LineSeparator<2, 8> = LineSeparator::new();
    let mut chars: Queue<char, 8> = Queue::new();
    chars.enqueue('x').unwrap();
    assert!(sep.read(&mut chars) == ReadFinished::InputDepleted);
    chars.enqueue('\n').unwrap();
    chars.enqueue('y').unwrap();
    assert!(sep.read(&mut chars) == ReadFinished::LineFinished);
    assert_eq!(drain(&mut chars), vec!['y']);
}

#[test]
fn line_separator_keeps_lines_while_the_output_is_full() {
    let mut sep: LineSeparator<2, 8> = LineSeparator::new();
    let mut chars: Queue<char, 8> = Queue::new();
    for c in "a\nb\n".chars() {
        chars.enqueue(c).unwrap();
    }
    let mut lines: Queue<String, 2> = Queue::new();
    sep.read_many(&mut chars, &mut lines);
    assert_eq!(drain(&mut lines), vec![String::from("a")]);
    assert_eq!(drain(&mut chars), vec!['b', '\n']);
}

#[test]
fn line_joiner_sends_the_utf8_bytes_of_lines() {
    let mut joiner: LineJoiner<4, 4> = LineJoiner::new();
    let mut lines: Queue<String, 4> = Queue::new();
    lines.enqueue(String::from("hé!")).unwrap();
    let mut bytes: Queue<u8, 4> = Queue::new();
    joiner.resume(&mut lines, &mut bytes);
    assert_eq!(drain(&mut bytes), vec![b'h', 0xc3, 0xa9]);
    joiner.resume(&mut lines, &mut bytes);
    assert_eq!(drain(&mut bytes), vec![b'!']);
    joiner.resume(&mut lines, &mut bytes);
    assert!(bytes.is_empty());
}

#[test]
fn reader_proc_turns_words_into_characters() {
    let mut proc: ReaderProc<u8, 4> = ReaderProc::new(0);
    let mut out: Queue<char, 4> = Queue::new();
    assert_eq!(ReaderProc::<u8, 4>::read_budget(&out), 3);
    assert_eq!(ReaderProc::<u8, 4>::accept_read(&mut out, 0, ReadOutcome::Word(b'A')), None);
    assert_eq!(ReaderProc::<u8, 4>::accept_read(&mut out, 1, ReadOutcome::WouldBlock), Some(1));
    assert_eq!(drain(&mut out), vec!['A']);
    *proc.reader_mut() = 5;
    assert_eq!(*proc.reader_mut(), 5);
}

#[test]
fn writer_steps_send_words_in_order() {
    let mut q = bytes_queue::<4>(&[1, 2]);
    assert_eq!(next_word(&q), Some(1));
    assert!(accept_write(&mut q, WriteOutcome::Written));
    assert_eq!(next_word(&q), Some(2));
    assert!(!accept_write(&mut q, WriteOutcome::WouldBlock));
    assert_eq!(next_word(&q), Some(2));
    let mut w: WriterProc<4, u8> = WriterProc::new(9);
    assert_eq!(*w.writer_mut(), 9);
}

#[test]
fn read_steps_fill_the_queue() {
    let mut q: Queue<u8, 3> = Queue::new();
    assert_eq!(open_space(&q), 2);
    assert!(accept_read_word(&mut q, ReadOutcome::Word(7)));
    assert!(!accept_read_word(&mut q, ReadOutcome::WouldBlock));
    assert_eq!(open_space(&q), 1);
    assert_eq!(drain(&mut q), vec![7]);
    let mut rw: ReaderWriterProc<u8, 3, 3> = ReaderWriterProc::new(1);
    assert_eq!(*rw.rw_mut(), 1);
}

#[test]
fn line_joiner_sends_every_byte_of_its_lines_in_order() {
    let mut joiner: LineJoiner<4, 3> = LineJoiner::new();
    let mut lines: Queue<String, 4> = Queue::new();
    lines.enqueue(String::from("abc")).unwrap();
    lines.enqueue(String::from("dé")).unwrap();
    lines.enqueue(String::from("f")).unwrap();
    let mut bytes: Queue<u8, 3> = Queue::new();
    let mut all = Vec::new();
    for _ in 0..8 {
        joiner.resume(&mut lines, &mut bytes);
        all.extend(drain(&mut bytes));
    }
    assert_eq!(all, "abcdéf".as_bytes().to_vec());
    assert!(lines.is_empty());
}
