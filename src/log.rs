use vstd::prelude::*;
use vstd::string::StrSliceExecFns;

verus! {

/// A diagnostic log: lines waiting to be written, the directory prefix of the log file,
/// and an optional tag that names the writer.
pub struct LogSink {
    pub buffer: Vec<char>,
    pub prefix: String,
    pub tag: Option<String>,
}

/// One log line: `[stamp] message` and a line break.
pub open spec fn line_of(stamp: Seq<char>, message: Seq<char>) -> Seq<char> {
    seq!['['] + stamp + seq![']', ' '] + message + seq!['\n']
}

/// The log file under `prefix`, named by the start stamp and the tag:
/// `{prefix}/{stamp}[-{tag}].log`.
pub open spec fn log_file_of(prefix: Seq<char>, stamp: Seq<char>, tag: Option<Seq<char>>) -> Seq<char> {
    prefix + seq!['/'] + stamp + match tag {
        Some(t) => seq!['-'] + t,
        None => seq![],
    } + seq!['.', 'l', 'o', 'g']
}

/// The lexically cleaned form of a path: what `path_clean::clean` makes of it.
pub uninterp spec fn cleaned(p: Seq<char>) -> Seq<char>;

/// Relies on `path_clean::clean`, which normalises a path by its text alone
/// (`.` and `..` components, repeated separators).
#[verifier::external_body]
fn clean_path(p: &Vec<char>) -> (r: Vec<char>)
    ensures
        r@ == cleaned(p@),
{
    let s: String = p.iter().collect();
    path_clean::clean(s).to_string_lossy().chars().collect()
}

fn push_str(text: &mut Vec<char>, s: &str)
    ensures
        final(text)@ == old(text)@ + s@,
{
    let n = s.unicode_len();
    let ghost start = text@;
    let mut i: usize = 0;
    while i < n
        invariant
            n == s@.len(),
            i <= n,
            text@ == start + s@.subrange(0, i as int),
        decreases n - i,
    {
        text.push(s.get_char(i));
        assert(start + s@.subrange(0, i + 1) =~= (start + s@.subrange(0, i as int)).push(s@[i as int]));
        i = i + 1;
    }
    assert(s@.subrange(0, n as int) =~= s@);
}

impl LogSink {
    /// An empty log whose file goes under `prefix`, with no tag.
    pub fn new(prefix: &str) -> (r: LogSink)
        ensures
            r.buffer@.len() == 0,
            r.prefix@ == prefix@,
            r.tag is None,
    {
        LogSink { buffer: Vec::new(), prefix: prefix.to_owned(), tag: None }
    }

    /// Appends one line, stamped with `stamp`.
    pub fn add_log(&mut self, stamp: &str, message: &str)
        ensures
            final(self).buffer@ == old(self).buffer@ + line_of(stamp@, message@),
            final(self).prefix == old(self).prefix,
            final(self).tag == old(self).tag,
    {
        let ghost start = self.buffer@;
        self.buffer.push('[');
        push_str(&mut self.buffer, stamp);
        self.buffer.push(']');
        self.buffer.push(' ');
        push_str(&mut self.buffer, message);
        self.buffer.push('\n');
        assert(self.buffer@ =~= start + line_of(stamp@, message@));
    }

    /// Hands over the pending lines for writing and empties the buffer.
    pub fn take_pending(&mut self) -> (r: Vec<char>)
        ensures
            r@ == old(self).buffer@,
            final(self).buffer@.len() == 0,
            final(self).prefix == old(self).prefix,
            final(self).tag == old(self).tag,
    {
        let pending = self.buffer.clone();
        self.buffer = Vec::new();
        pending
    }

    /// The cleaned path of the log file of a run that started at `stamp`.
    pub fn log_file_path(&self, stamp: &str) -> (r: Vec<char>)
        ensures
            r@ == cleaned(
                log_file_of(
                    self.prefix@,
                    stamp@,
                    match self.tag {
                        Some(t) => Some(t@),
                        None => None,
                    },
                ),
            ),
    {
        clean_path(&self.log_file_name(stamp))
    }

    /// The path of the log file of a run that started at `stamp`, before cleaning.
    pub fn log_file_name(&self, stamp: &str) -> (r: Vec<char>)
        ensures
            r@ == log_file_of(
                self.prefix@,
                stamp@,
                match self.tag {
                    Some(t) => Some(t@),
                    None => None,
                },
            ),
    {
        let mut r: Vec<char> = Vec::new();
        push_str(&mut r, self.prefix.as_str());
        r.push('/');
        push_str(&mut r, stamp);
        match &self.tag {
            Some(t) => {
                r.push('-');
                push_str(&mut r, t.as_str());
            },
            None => {},
        }
        r.push('.');
        r.push('l');
        r.push('o');
        r.push('g');
        assert(r@ =~= log_file_of(
            self.prefix@,
            stamp@,
            match self.tag {
                Some(t) => Some(t@),
                None => None,
            },
        ));
        r
    }
}

/// Names the writer of the log: the tag goes into the log file's name.
pub fn set_tag(sink: &mut LogSink, tag: &str)
    ensures
        final(sink).tag is Some,
        final(sink).tag->0@ == tag@,
        final(sink).buffer == old(sink).buffer,
        final(sink).prefix == old(sink).prefix,
{
    sink.tag = Some(tag.to_owned());
}

/// Drops every line not yet written.
pub fn wipe_log(sink: &mut LogSink)
    ensures
        final(sink).buffer@.len() == 0,
        final(sink).tag == old(sink).tag,
        final(sink).prefix == old(sink).prefix,
{
    sink.buffer = Vec::new();
}

} // verus!
