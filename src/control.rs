use vstd::prelude::*;
use vstd::string::StrSliceExecFns;
use crate::text::{decimal_chars, decimal_of};

verus! {

/// One benchmark configuration: delivery guarantee, publish interval and instance count.
#[derive(PartialEq, Eq, Structural, Clone, Copy, Debug)]
pub struct Configuration {
    pub qos: u8,
    pub delay_ms: u64,
    pub instance_count: u64,
}

/// A message of the control plane, as the coordinator understands it.
#[derive(PartialEq, Eq, Structural, Clone, Copy, Debug)]
pub enum ControlMessage {
    Qos(u8),
    Delay(u64),
    InstanceCount(u64),
    Reset,
    Killall,
    /// An unknown topic, or a payload that does not parse.
    Ignored,
}

pub open spec fn qos_topic() -> Seq<char> {
    seq!['r', 'e', 'q', 'u', 'e', 's', 't', '/', 'q', 'o', 's']
}

pub open spec fn delay_topic() -> Seq<char> {
    seq!['r', 'e', 'q', 'u', 'e', 's', 't', '/', 'd', 'e', 'l', 'a', 'y']
}

pub open spec fn instance_count_topic() -> Seq<char> {
    seq![
        'r', 'e', 'q', 'u', 'e', 's', 't', '/', 'i', 'n', 's', 't', 'a', 'n', 'c', 'e', 'c', 'o',
        'u', 'n', 't',
    ]
}

pub open spec fn reset_topic() -> Seq<char> {
    seq!['r', 'e', 'q', 'u', 'e', 's', 't', '/', 'r', 'e', 's', 'e', 't']
}

pub open spec fn killall_topic() -> Seq<char> {
    seq!['r', 'e', 'q', 'u', 'e', 's', 't', '/', 'k', 'i', 'l', 'l', 'a', 'l', 'l']
}

pub open spec fn is_digit(c: char) -> bool {
    '0' <= c <= '9'
}

pub open spec fn digit_value(c: char) -> int {
    (c as int) - ('0' as int)
}

/// The number that a run of decimal digits spells.
pub open spec fn digits_value(s: Seq<char>) -> int
    decreases s.len(),
{
    if s.len() == 0 {
        0
    } else {
        digits_value(s.drop_last()) * 10 + digit_value(s.last())
    }
}

/// The digits of an unsigned decimal text: an optional leading `+`, then the digits.
pub open spec fn unsigned_digits(s: Seq<char>) -> Seq<char> {
    if s.len() > 0 && s[0] == '+' {
        s.subrange(1, s.len() as int)
    } else {
        s
    }
}

/// The value of an unsigned decimal text, if it is one and fits in `u64`.
pub open spec fn decimal_value(s: Seq<char>) -> Option<u64> {
    let d = unsigned_digits(s);
    if d.len() > 0 && (forall|i: int| 0 <= i < d.len() ==> is_digit(#[trigger] d[i]))
        && digits_value(d) <= u64::MAX {
        Some(digits_value(d) as u64)
    } else {
        None
    }
}

/// What a control message on `topic` with `payload` means.
pub open spec fn control_of(topic: Seq<char>, payload: Seq<char>) -> ControlMessage {
    if topic == qos_topic() {
        match decimal_value(payload) {
            Some(v) => if v <= 2 { ControlMessage::Qos(v as u8) } else { ControlMessage::Ignored },
            None => ControlMessage::Ignored,
        }
    } else if topic == delay_topic() {
        match decimal_value(payload) {
            Some(v) => ControlMessage::Delay(v),
            None => ControlMessage::Ignored,
        }
    } else if topic == instance_count_topic() {
        match decimal_value(payload) {
            Some(v) => ControlMessage::InstanceCount(v),
            None => ControlMessage::Ignored,
        }
    } else if topic == reset_topic() {
        ControlMessage::Reset
    } else if topic == killall_topic() {
        ControlMessage::Killall
    } else {
        ControlMessage::Ignored
    }
}

proof fn lemma_digits_value_nonneg(s: Seq<char>)
    requires
        forall|i: int| 0 <= i < s.len() ==> is_digit(#[trigger] s[i]),
    ensures
        digits_value(s) >= 0,
    decreases s.len(),
{
    if s.len() > 0 {
        let p = s.drop_last();
        assert forall|i: int| 0 <= i < p.len() implies is_digit(#[trigger] p[i]) by {
            assert(p[i] == s[i]);
        }
        lemma_digits_value_nonneg(p);
    }
}

proof fn lemma_digits_value_grows(s: Seq<char>, n: int)
    requires
        0 <= n <= s.len(),
        forall|i: int| 0 <= i < s.len() ==> is_digit(#[trigger] s[i]),
    ensures
        digits_value(s.subrange(0, n)) <= digits_value(s),
    decreases s.len() - n,
{
    if n < s.len() {
        lemma_digits_value_grows(s, n + 1);
        let q = s.subrange(0, n + 1);
        assert(q.drop_last() =~= s.subrange(0, n));
        assert forall|i: int| 0 <= i < n implies is_digit(#[trigger] s.subrange(0, n)[i]) by {
            assert(s.subrange(0, n)[i] == s[i]);
        }
        lemma_digits_value_nonneg(s.subrange(0, n));
    } else {
        assert(s.subrange(0, n) =~= s);
    }
}

/// Whether two strings hold the same characters.
pub fn same_text(a: &str, b: &str) -> (r: bool)
    ensures
        r == (a@ == b@),
{
    let n = a.unicode_len();
    if n != b.unicode_len() {
        return false;
    }
    let mut i: usize = 0;
    while i < n
        invariant
            n == a@.len(),
            n == b@.len(),
            i <= n,
            forall|j: int| 0 <= j < i ==> a@[j] == b@[j],
        decreases n - i,
    {
        if a.get_char(i) != b.get_char(i) {
            return false;
        }
        i = i + 1;
    }
    assert(a@ =~= b@);
    true
}

/// Parses an unsigned decimal text into a `u64`.
pub fn parse_decimal(s: &str) -> (r: Option<u64>)
    ensures
        r == decimal_value(s@),
{
    let n = s.unicode_len();
    let mut start: usize = 0;
    if n > 0 && s.get_char(0) == '+' {
        start = 1;
    }
    let ghost d = unsigned_digits(s@);
    proof {
        assert(d =~= s@.subrange(start as int, n as int));
    }
    if start == n {
        return None;
    }
    let mut acc: u64 = 0;
    let mut i: usize = start;
    while i < n
        invariant
            n == s@.len(),
            start <= i <= n,
            d =~= s@.subrange(start as int, n as int),
            d == unsigned_digits(s@),
            forall|j: int| 0 <= j < i - start ==> is_digit(#[trigger] d[j]),
            acc == digits_value(d.subrange(0, i - start)),
        decreases n - i,
    {
        let c = s.get_char(i);
        assert(d[i - start] == c);
        if !('0' <= c && c <= '9') {
            assert(!is_digit(d[i - start]));
            return None;
        }
        let v = (c as u64) - ('0' as u64);
        proof {
            assert(d.subrange(0, i + 1 - start).drop_last() =~= d.subrange(0, i - start));
        }
        if acc > 1844674407370955161 || (acc == 1844674407370955161 && v > 5) {
            proof {
                assert(digits_value(d.subrange(0, i + 1 - start)) > u64::MAX);
                if forall|j: int| 0 <= j < d.len() ==> is_digit(#[trigger] d[j]) {
                    lemma_digits_value_grows(d, i + 1 - start);
                }
            }
            return None;
        }
        acc = acc * 10 + v;
        i = i + 1;
    }
    proof {
        assert(d.subrange(0, n - start) =~= d);
    }
    Some(acc)
}

/// Reads one control message from its topic and payload.
pub fn parse_control(topic: &str, payload: &str) -> (r: ControlMessage)
    ensures
        r == control_of(topic@, payload@),
{
    proof {
        reveal_strlit("request/qos");
        reveal_strlit("request/delay");
        reveal_strlit("request/instancecount");
        reveal_strlit("request/reset");
        reveal_strlit("request/killall");
        assert("request/qos"@ =~= qos_topic());
        assert("request/delay"@ =~= delay_topic());
        assert("request/instancecount"@ =~= instance_count_topic());
        assert("request/reset"@ =~= reset_topic());
        assert("request/killall"@ =~= killall_topic());
    }
    if same_text(topic, "request/qos") {
        match parse_decimal(payload) {
            Some(v) => if v <= 2 { ControlMessage::Qos(v as u8) } else { ControlMessage::Ignored },
            None => ControlMessage::Ignored,
        }
    } else if same_text(topic, "request/delay") {
        match parse_decimal(payload) {
            Some(v) => ControlMessage::Delay(v),
            None => ControlMessage::Ignored,
        }
    } else if same_text(topic, "request/instancecount") {
        match parse_decimal(payload) {
            Some(v) => ControlMessage::InstanceCount(v),
            None => ControlMessage::Ignored,
        }
    } else if same_text(topic, "request/reset") {
        ControlMessage::Reset
    } else if same_text(topic, "request/killall") {
        ControlMessage::Killall
    } else {
        ControlMessage::Ignored
    }
}

/// The topic on which a control message travels.
pub open spec fn topic_of(m: ControlMessage) -> Seq<char> {
    match m {
        ControlMessage::Qos(_) => qos_topic(),
        ControlMessage::Delay(_) => delay_topic(),
        ControlMessage::InstanceCount(_) => instance_count_topic(),
        ControlMessage::Reset => reset_topic(),
        ControlMessage::Killall => killall_topic(),
        ControlMessage::Ignored => seq![],
    }
}

/// The payload of a control message: the decimal value, or nothing.
pub open spec fn payload_of(m: ControlMessage) -> Seq<char> {
    match m {
        ControlMessage::Qos(q) => decimal_of(q as nat),
        ControlMessage::Delay(d) => decimal_of(d as nat),
        ControlMessage::InstanceCount(n) => decimal_of(n as nat),
        _ => seq![],
    }
}

/// The topic text of a control message.
pub fn control_topic(m: ControlMessage) -> (r: Vec<char>)
    ensures
        r@ == topic_of(m),
{
    let r: Vec<char> = match m {
        ControlMessage::Qos(_) => vec!['r', 'e', 'q', 'u', 'e', 's', 't', '/', 'q', 'o', 's'],
        ControlMessage::Delay(_) => vec!['r', 'e', 'q', 'u', 'e', 's', 't', '/', 'd', 'e', 'l', 'a', 'y'],
        ControlMessage::InstanceCount(_) => vec![
            'r', 'e', 'q', 'u', 'e', 's', 't', '/', 'i', 'n', 's', 't', 'a', 'n', 'c', 'e', 'c', 'o',
            'u', 'n', 't',
        ],
        ControlMessage::Reset => vec!['r', 'e', 'q', 'u', 'e', 's', 't', '/', 'r', 'e', 's', 'e', 't'],
        ControlMessage::Killall => vec![
            'r', 'e', 'q', 'u', 'e', 's', 't', '/', 'k', 'i', 'l', 'l', 'a', 'l', 'l',
        ],
        ControlMessage::Ignored => Vec::new(),
    };
    assert(r@ =~= topic_of(m));
    r
}

/// The payload text of a control message.
pub fn control_payload(m: ControlMessage) -> (r: Vec<char>)
    ensures
        r@ == payload_of(m),
{
    match m {
        ControlMessage::Qos(q) => decimal_chars(q as u64),
        ControlMessage::Delay(d) => decimal_chars(d),
        ControlMessage::InstanceCount(n) => decimal_chars(n),
        _ => {
            let r: Vec<char> = Vec::new();
            assert(r@ =~= payload_of(m));
            r
        },
    }
}

} // verus!
