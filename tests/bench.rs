use wiredforge::bench::{decimal, get_res, get_res_vec, msgs, size_stats, summary_lines, Message, Test, TestResult};

fn text_size(m: &Message) -> usize {
    match m {
        Message::Ping => 1,
        Message::Pong => 2,
        Message::Chat(s) | Message::Nick(s) | Message::Me(s) => s.len(),
    }
}

#[test]
fn messages_repeat_every_kind() {
    let all = msgs();
    assert_eq!(all.len(), 5000);
    for (i, m) in all.iter().enumerate() {
        match (i % 5, m) {
            (0, Message::Ping) | (1, Message::Pong) => {}
            (2, Message::Chat(s)) => assert_eq!(s, "Hello World!"),
            (3, Message::Nick(s)) => assert_eq!(s, "CoolDood2001"),
            (4, Message::Me(s)) => assert_eq!(s, "Me!"),
            _ => panic!("message {} out of order", i),
        }
    }
}

#[test]
fn stats_of_sizes() {
    assert_eq!(size_stats(&vec![3, 9, 2, 9, 1]), (9, 24));
    assert_eq!(size_stats(&Vec::new()), (0, 0));
    assert_eq!(size_stats(&vec![7]), (7, 7));
}

#[test]
fn total_saturates() {
    assert_eq!(size_stats(&vec![usize::MAX, 1, 2]), (usize::MAX, usize::MAX));
    assert_eq!(size_stats(&vec![usize::MAX - 3, 3]), (usize::MAX - 3, usize::MAX));
}

#[test]
fn decimal_text() {
    assert_eq!(decimal(0), "0");
    assert_eq!(decimal(7), "7");
    assert_eq!(decimal(42), "42");
    assert_eq!(decimal(1000), "1000");
    assert_eq!(decimal(usize::MAX), usize::MAX.to_string());
}

#[test]
fn benchmark_measures_each_encoder() {
    let res: TestResult<u32> = get_res(|| 7u32, text_size, |_m: &Message| 4, "ms");
    assert_eq!(res.rmp.largest, 12);
    assert_eq!(res.rmp.total_size, 1000 * (1 + 2 + 12 + 12 + 3));
    assert_eq!(res.bin.largest, 4);
    assert_eq!(res.bin.total_size, 20000);
    assert_eq!(res.rmp.time_unit, "ms");
    assert_eq!(res.bin.time_unit, "ms");
    assert_eq!(res.rmp.start_timestamp, 7);
    assert_eq!(res.bin.end_timestamp, 7);
}

#[test]
fn benchmark_reads_the_clock_around_each_run() {
    let clock = std::cell::Cell::new(0u64);
    let now = || {
        clock.set(clock.get() + 1);
        clock.get()
    };
    let res = get_res(now, |_m: &Message| 1, |_m: &Message| 2, "ticks");
    assert_eq!((res.rmp.start_timestamp, res.rmp.end_timestamp), (1, 2));
    assert_eq!((res.bin.start_timestamp, res.bin.end_timestamp), (3, 4));
}

#[test]
fn report_lines() {
    let lines = get_res_vec(
        || 5u32,
        |a: &u32, b: &u32| format!("{:?}", b - a),
        text_size,
        |_m: &Message| 4,
        "ms",
    );
    let want = vec![
        "RMP",
        "----------",
        "Largest serialized: 12",
        "Total serialized: 30000",
        "Duration: 0ms",
        "Bincode",
        "----------",
        "Largest serialized: 4",
        "Total serialized: 20000",
        "Duration: 0ms",
    ];
    assert_eq!(lines, want);
}

#[test]
fn summary_of_given_runs() {
    let run = |largest: usize, total_size: usize| Test {
        start_timestamp: 0u8,
        end_timestamp: 0u8,
        time_unit: String::from("us"),
        largest,
        total_size,
    };
    let res = TestResult { rmp: run(10, 250), bin: run(9, 0) };
    let lines = summary_lines(&res, "12", "3");
    assert_eq!(lines[2], "Largest serialized: 10");
    assert_eq!(lines[3], "Total serialized: 250");
    assert_eq!(lines[4], "Duration: 12us");
    assert_eq!(lines[5], "Bincode");
    assert_eq!(lines[8], "Total serialized: 0");
    assert_eq!(lines[9], "Duration: 3us");
}
