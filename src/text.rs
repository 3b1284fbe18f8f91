use vstd::prelude::*;

verus! {

pub open spec fn digit_char(d: nat) -> char {
    seq!['0', '1', '2', '3', '4', '5', '6', '7', '8', '9'][d as int]
}

/// The decimal text of `v`, without sign or leading zeros.
pub open spec fn decimal_of(v: nat) -> Seq<char>
    decreases v,
{
    if v < 10 {
        seq![digit_char(v)]
    } else {
        decimal_of(v / 10).push(digit_char(v % 10))
    }
}

fn digit(d: u64) -> (r: char)
    requires
        d < 10,
    ensures
        r == digit_char(d as nat),
{
    if d == 0 {
        '0'
    } else if d == 1 {
        '1'
    } else if d == 2 {
        '2'
    } else if d == 3 {
        '3'
    } else if d == 4 {
        '4'
    } else if d == 5 {
        '5'
    } else if d == 6 {
        '6'
    } else if d == 7 {
        '7'
    } else if d == 8 {
        '8'
    } else {
        '9'
    }
}

/// The decimal text of `v`.
pub fn decimal_chars(v: u64) -> (r: Vec<char>)
    ensures
        r@ == decimal_of(v as nat),
{
    let mut out: Vec<char> = Vec::new();
    let mut cur: u64 = v;
    while cur >= 10
        invariant
            decimal_of(v as nat) == decimal_of(cur as nat) + out@,
        decreases cur,
    {
        let ghost before = out@;
        out.insert(0, digit(cur % 10));
        proof {
            assert(decimal_of(cur as nat) == decimal_of((cur / 10) as nat).push(digit_char((cur % 10) as nat)));
            assert(decimal_of((cur / 10) as nat).push(digit_char((cur % 10) as nat)) + before
                =~= decimal_of((cur / 10) as nat) + out@);
        }
        cur = cur / 10;
    }
    let ghost before = out@;
    out.insert(0, digit(cur));
    assert(decimal_of(cur as nat) + before =~= out@);
    out
}

/// Appends the characters of `tail` to `text`.
pub fn push_all(text: &mut Vec<char>, tail: &Vec<char>)
    ensures
        final(text)@ == old(text)@ + tail@,
{
    let mut i: usize = 0;
    let ghost start = text@;
    while i < tail.len()
        invariant
            i <= tail@.len(),
            text@ == start + tail@.subrange(0, i as int),
        decreases tail@.len() - i,
    {
        text.push(tail[i]);
        assert(start + tail@.subrange(0, i + 1) =~= (start + tail@.subrange(0, i as int)).push(tail@[i as int]));
        i = i + 1;
    }
    assert(tail@.subrange(0, tail@.len() as int) =~= tail@);
}

pub open spec fn counter_prefix() -> Seq<char> {
    seq!['c', 'o', 'u', 'n', 't', 'e', 'r', '/']
}

/// The data topic of one instance: `counter/{index}/{qos}/{delay}`.
pub open spec fn data_topic_of(index: u64, qos: u8, delay_ms: u64) -> Seq<char> {
    counter_prefix() + decimal_of(index as nat) + seq!['/'] + decimal_of(qos as nat) + seq!['/']
        + decimal_of(delay_ms as nat)
}

/// The data topic on which instance `index` publishes or listens.
pub fn data_topic(index: u64, qos: u8, delay_ms: u64) -> (r: Vec<char>)
    ensures
        r@ == data_topic_of(index, qos, delay_ms),
{
    let mut t: Vec<char> = vec!['c', 'o', 'u', 'n', 't', 'e', 'r', '/'];
    push_all(&mut t, &decimal_chars(index));
    t.push('/');
    push_all(&mut t, &decimal_chars(qos as u64));
    t.push('/');
    push_all(&mut t, &decimal_chars(delay_ms));
    assert(t@ =~= data_topic_of(index, qos, delay_ms));
    t
}

} // verus!
