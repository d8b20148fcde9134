//! A benchmark of two serialization formats over a fixed set of chat
//! messages. The encoders and the clock are handed in by the caller; what is
//! measured, how it is summed up, and how it is reported stands here.

use vstd::prelude::*;

use crate::text::texts;

verus! {

/// The message kinds that the benchmark encodes.
pub enum Message {
    Ping,
    Pong,
    Chat(String),
    Nick(String),
    Me(String),
}

/// A message as a value.
pub enum MessageView {
    Ping,
    Pong,
    Chat(Seq<char>),
    Nick(Seq<char>),
    Me(Seq<char>),
}

impl View for Message {
    type V = MessageView;

    open spec fn view(&self) -> MessageView {
        match self {
            Message::Ping => MessageView::Ping,
            Message::Pong => MessageView::Pong,
            Message::Chat(s) => MessageView::Chat(s@),
            Message::Nick(s) => MessageView::Nick(s@),
            Message::Me(s) => MessageView::Me(s@),
        }
    }
}

/// How many message kinds one round holds.
pub const KINDS: usize = 5;

/// How many rounds of every kind the benchmark encodes.
pub const ROUNDS: usize = 1000;

/// How many messages the benchmark encodes.
pub const MESSAGE_COUNT: usize = KINDS * ROUNDS;

/// The `k`-th message of a round.
pub open spec fn sample_message(k: int) -> MessageView {
    if k == 0 {
        MessageView::Ping
    } else if k == 1 {
        MessageView::Pong
    } else if k == 2 {
        MessageView::Chat("Hello World!"@)
    } else if k == 3 {
        MessageView::Nick("CoolDood2001"@)
    } else {
        MessageView::Me("Me!"@)
    }
}

/// The `k`-th message of a round, built afresh.
fn sample(k: usize) -> (r: Message)
    requires
        k < KINDS,
    ensures
        r@ == sample_message(k as int),
{
    if k == 0 {
        Message::Ping
    } else if k == 1 {
        Message::Pong
    } else if k == 2 {
        Message::Chat(String::from_str("Hello World!"))
    } else if k == 3 {
        Message::Nick(String::from_str("CoolDood2001"))
    } else {
        Message::Me(String::from_str("Me!"))
    }
}

/// The benchmark's messages: a round of every kind, in order, a thousand times.
pub fn msgs() -> (r: Vec<Message>)
    ensures
        r@.len() == MESSAGE_COUNT,
        forall|i: int| 0 <= i < MESSAGE_COUNT ==> (#[trigger] r@[i])@ == sample_message(i % 5),
{
    let mut ret: Vec<Message> = Vec::new();
    let mut i: usize = 0;
    while i < MESSAGE_COUNT
        invariant
            i <= MESSAGE_COUNT,
            ret@.len() == i,
            forall|j: int| 0 <= j < i ==> (#[trigger] ret@[j])@ == sample_message(j % 5),
        decreases MESSAGE_COUNT - i,
    {
        ret.push(sample(i % KINDS));
        i = i + 1;
    }
    ret
}

/// The largest of `s`, or 0 when it is empty.
pub open spec fn seq_max(s: Seq<usize>) -> nat
    decreases s.len(),
{
    if s.len() == 0 {
        0
    } else if s.last() as nat > seq_max(s.drop_last()) {
        s.last() as nat
    } else {
        seq_max(s.drop_last())
    }
}

/// The sum of `s`.
pub open spec fn seq_sum(s: Seq<usize>) -> nat
    decreases s.len(),
{
    if s.len() == 0 {
        0
    } else {
        seq_sum(s.drop_last()) + s.last() as nat
    }
}

/// `n`, or the largest `usize` when `n` is larger.
pub open spec fn capped(n: nat) -> usize {
    if n > usize::MAX {
        usize::MAX
    } else {
        n as usize
    }
}

/// The largest size and the total size of a list of encoded sizes; the total
/// saturates at the largest `usize`.
pub fn size_stats(sizes: &Vec<usize>) -> (r: (usize, usize))
    ensures
        r.0 == seq_max(sizes@),
        r.1 == capped(seq_sum(sizes@)),
{
    let mut total: usize = 0;
    let mut max: usize = 0;
    let mut i: usize = 0;
    while i < sizes.len()
        invariant
            i <= sizes.len(),
            max == seq_max(sizes@.subrange(0, i as int)),
            total == capped(seq_sum(sizes@.subrange(0, i as int))),
        decreases sizes.len() - i,
    {
        let size = sizes[i];
        proof {
            let next = sizes@.subrange(0, i + 1);
            assert(next.drop_last() =~= sizes@.subrange(0, i as int));
            assert(next.last() == size);
        }
        total = total.saturating_add(size);
        if max < size {
            max = size;
        }
        i = i + 1;
    }
    proof {
        assert(sizes@.subrange(0, i as int) =~= sizes@);
    }
    (max, total)
}

/// The size of every message in `messages` as `size_of` gives it, in order.
fn encoded_sizes<F: Fn(&Message) -> usize>(messages: &Vec<Message>, size_of: &F) -> (r: Vec<usize>)
    requires
        forall|i: int| 0 <= i < messages@.len() ==> call_requires(*size_of, (&messages@[i],)),
    ensures
        r@.len() == messages@.len(),
        forall|i: int| 0 <= i < messages@.len() ==> call_ensures(*size_of, (&messages@[i],), #[trigger] r@[i]),
{
    let mut sizes: Vec<usize> = Vec::new();
    let mut i: usize = 0;
    while i < messages.len()
        invariant
            i <= messages@.len(),
            sizes@.len() == i,
            forall|j: int| 0 <= j < messages@.len() ==> call_requires(*size_of, (&messages@[j],)),
            forall|j: int| 0 <= j < i ==> call_ensures(*size_of, (&messages@[j],), #[trigger] sizes@[j]),
        decreases messages@.len() - i,
    {
        let size = size_of(&messages[i]);
        sizes.push(size);
        i = i + 1;
    }
    sizes
}

/// One timed run of one format.
pub struct Test<T> {
    pub start_timestamp: T,
    pub end_timestamp: T,
    pub time_unit: String,
    /// The size of the largest encoded message.
    pub largest: usize,
    /// The size of all encoded messages together.
    pub total_size: usize,
}

/// The runs of both formats.
pub struct TestResult<T> {
    pub rmp: Test<T>,
    pub bin: Test<T>,
}

/// `largest` and `total` are the statistics of the sizes that `size_of` gave
/// for the benchmark's messages.
pub open spec fn measured<F: Fn(&Message) -> usize>(size_of: F, largest: usize, total: usize) -> bool {
    exists|ms: Seq<Message>, sizes: Seq<usize>|
        {
            &&& ms.len() == MESSAGE_COUNT
            &&& sizes.len() == MESSAGE_COUNT
            &&& forall|i: int|
                0 <= i < MESSAGE_COUNT ==> (#[trigger] ms[i])@ == sample_message(i % 5)
                    && call_ensures(size_of, (&ms[i],), sizes[i])
            &&& largest == seq_max(sizes)
            &&& total == capped(seq_sum(sizes))
        }
}

/// `t` is a run of the benchmark with the clock `now` and the encoder
/// `size_of`, timed in `unit`.
pub open spec fn test_run<T, N: Fn() -> T, F: Fn(&Message) -> usize>(
    t: Test<T>,
    now: N,
    size_of: F,
    unit: Seq<char>,
) -> bool {
    &&& call_ensures(now, (), t.start_timestamp)
    &&& call_ensures(now, (), t.end_timestamp)
    &&& t.time_unit@ == unit
    &&& measured(size_of, t.largest, t.total_size)
}

/// Encodes every message with `size_of` between two readings of `now`.
fn run_one<T, N: Fn() -> T, F: Fn(&Message) -> usize>(now: &N, size_of: &F, time_unit: &str) -> (r: Test<T>)
    requires
        call_requires(*now, ()),
        forall|m: &Message| call_requires(*size_of, (m,)),
    ensures
        test_run(r, *now, *size_of, time_unit@),
{
    let messages = msgs();
    let start = now();
    let sizes = encoded_sizes(&messages, size_of);
    let stats = size_stats(&sizes);
    let end = now();
    proof {
        assert forall|i: int| 0 <= i < MESSAGE_COUNT implies (#[trigger] messages@[i])@ == sample_message(i % 5)
            && call_ensures(*size_of, (&messages@[i],), sizes@[i]) by {}
    }
    Test {
        start_timestamp: start,
        end_timestamp: end,
        time_unit: String::from_str(time_unit),
        largest: stats.0,
        total_size: stats.1,
    }
}

/// Runs the benchmark: the messages encoded with `rmp_size`, then with
/// `bin_size`, each run between two readings of `now`. An encoder returns the
/// size of what it produced.
pub fn get_res<T, N: Fn() -> T, R: Fn(&Message) -> usize, B: Fn(&Message) -> usize>(
    now: N,
    rmp_size: R,
    bin_size: B,
    time_unit: &str,
) -> (r: TestResult<T>)
    requires
        call_requires(now, ()),
        forall|m: &Message| call_requires(rmp_size, (m,)),
        forall|m: &Message| call_requires(bin_size, (m,)),
    ensures
        test_run(r.rmp, now, rmp_size, time_unit@),
        test_run(r.bin, now, bin_size, time_unit@),
{
    let rmp = run_one(&now, &rmp_size, time_unit);
    let bin = run_one(&now, &bin_size, time_unit);
    TestResult { rmp, bin }
}

/// The decimal digits of `n`.
pub open spec fn decimal_text(n: nat) -> Seq<char>
    decreases n,
{
    if n < 10 {
        seq!["0123456789"@[n as int]]
    } else {
        decimal_text(n / 10) + seq!["0123456789"@[(n % 10) as int]]
    }
}

/// `n` written in decimal.
pub fn decimal(n: usize) -> (r: String)
    ensures
        r@ == decimal_text(n as nat),
    decreases n,
{
    proof {
        reveal_strlit("0123456789");
    }
    let digits = "0123456789";
    let d = n % 10;
    let last = digits.substring_char(d, d + 1);
    proof {
        assert(last@ =~= seq!["0123456789"@[d as int]]);
    }
    if n < 10 {
        last.to_owned()
    } else {
        decimal(n / 10).concat(last)
    }
}

/// The report lines of one run.
pub open spec fn test_lines<T>(label: Seq<char>, t: Test<T>, duration: Seq<char>) -> Seq<Seq<char>> {
    seq![
        label,
        "----------"@,
        "Largest serialized: "@ + decimal_text(t.largest as nat),
        "Total serialized: "@ + decimal_text(t.total_size as nat),
        "Duration: "@ + duration + t.time_unit@,
    ]
}

/// The report of both runs, given how long each took as text.
pub fn summary_lines<T>(res: &TestResult<T>, rmp_duration: &str, bin_duration: &str) -> (r: Vec<String>)
    ensures
        texts(r@) == test_lines("RMP"@, res.rmp, rmp_duration@) + test_lines(
            "Bincode"@,
            res.bin,
            bin_duration@,
        ),
{
    let mut data: Vec<String> = Vec::new();
    data.push(String::from_str("RMP"));
    data.push(String::from_str("----------"));
    data.push(String::from_str("Largest serialized: ").concat(decimal(res.rmp.largest).as_str()));
    data.push(String::from_str("Total serialized: ").concat(decimal(res.rmp.total_size).as_str()));
    data.push(String::from_str("Duration: ").concat(rmp_duration).concat(res.rmp.time_unit.as_str()));
    data.push(String::from_str("Bincode"));
    data.push(String::from_str("----------"));
    data.push(String::from_str("Largest serialized: ").concat(decimal(res.bin.largest).as_str()));
    data.push(String::from_str("Total serialized: ").concat(decimal(res.bin.total_size).as_str()));
    data.push(String::from_str("Duration: ").concat(bin_duration).concat(res.bin.time_unit.as_str()));
    proof {
        assert(texts(data@) =~= test_lines("RMP"@, res.rmp, rmp_duration@) + test_lines(
            "Bincode"@,
            res.bin,
            bin_duration@,
        ));
    }
    data
}

/// Runs the benchmark and reports it as text; `elapsed` writes the time
/// between two readings of `now`.
pub fn get_res_vec<T, N: Fn() -> T, E: Fn(&T, &T) -> String, R: Fn(&Message) -> usize, B: Fn(&Message) -> usize>(
    now: N,
    elapsed: E,
    rmp_size: R,
    bin_size: B,
    time_unit: &str,
) -> (r: Vec<String>)
    requires
        call_requires(now, ()),
        forall|a: &T, b: &T| call_requires(elapsed, (a, b)),
        forall|m: &Message| call_requires(rmp_size, (m,)),
        forall|m: &Message| call_requires(bin_size, (m,)),
    ensures
        exists|res: TestResult<T>, rmp_duration: String, bin_duration: String|
            {
                &&& test_run(res.rmp, now, rmp_size, time_unit@)
                &&& test_run(res.bin, now, bin_size, time_unit@)
                &&& call_ensures(elapsed, (&res.rmp.start_timestamp, &res.rmp.end_timestamp), rmp_duration)
                &&& call_ensures(elapsed, (&res.bin.start_timestamp, &res.bin.end_timestamp), bin_duration)
                &&& texts(r@) == test_lines("RMP"@, res.rmp, rmp_duration@) + test_lines(
                    "Bincode"@,
                    res.bin,
                    bin_duration@,
                )
            },
{
    let res = get_res(now, rmp_size, bin_size, time_unit);
    let rmp_duration = elapsed(&res.rmp.start_timestamp, &res.rmp.end_timestamp);
    let bin_duration = elapsed(&res.bin.start_timestamp, &res.bin.end_timestamp);
    summary_lines(&res, rmp_duration.as_str(), bin_duration.as_str())
}

} // verus!
