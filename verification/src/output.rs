//! Splitting the byte streams of a build command into log lines and
//! extracted environment values.

use vstd::prelude::*;
use crate::model::Status;
use crate::text::{
    chars_equal, chars_of, contains_chars, decode_utf8, extend_chars, find_char, has_substring,
    slice_chars, split_once, string_from_chars, trim, trim_chars,
};

verus! {

/// What a command's output yields: a log line, or an extracted `KEY=value` pair.
#[derive(Clone, Debug)]
pub enum OutputEvent {
    Log { status: Status, message: String },
    Env { key: String, value: String },
}

/// The value of an [`OutputEvent`].
pub enum EventView {
    Log { status: Status, message: Seq<char> },
    Env { key: Seq<char>, value: Seq<char> },
}

impl View for OutputEvent {
    type V = EventView;

    open spec fn view(&self) -> EventView {
        match self {
            OutputEvent::Log { status, message } => EventView::Log { status: *status, message: message@ },
            OutputEvent::Env { key, value } => EventView::Env { key: key@, value: value@ },
        }
    }
}

/// The values of a list of events.
pub open spec fn events_view(v: Seq<OutputEvent>) -> Seq<EventView> {
    v.map_values(|e: OutputEvent| e@)
}

/// A byte that ends a line: carriage return or line feed.
pub open spec fn is_line_end(b: u8) -> bool {
    b == 13 || b == 10
}

/// The line that switches the standard output into environment mode contains this.
pub open spec fn env_marker() -> Seq<char> {
    seq!['+', '_', '+', '_', '+']
}

/// An optional event as a list of zero or one events.
pub open spec fn opt_seq(e: Option<EventView>) -> Seq<EventView> {
    match e {
        Some(x) => seq![x],
        None => Seq::empty(),
    }
}

/// A complete standard-output line (its last byte ends it), read in the given mode:
/// the event it yields, and the mode after it.
/// Undecodable and blank lines yield nothing; a line holding the marker switches to
/// environment mode; in environment mode a `KEY=value` line yields the pair when `KEY`
/// is one of `envs` (the value keeps everything after the first `=`); otherwise the line,
/// without line breaks at its ends, is logged as a success, behind a `\r` if a carriage
/// return ended it.
pub open spec fn stdout_line_event(line: Seq<u8>, is_env: bool, envs: Seq<Seq<char>>) -> (Option<EventView>, bool) {
    if !vstd::utf8::valid_utf8(line) {
        (None, is_env)
    } else {
        let chars = vstd::utf8::decode_utf8(line);
        let t = trim(chars, true);
        if t.len() == 0 {
            (None, is_env)
        } else if has_substring(chars, env_marker()) {
            (None, true)
        } else if is_env {
            match split_once(chars, '=') {
                Some((k, v)) => if envs.contains(k) {
                    (Some(EventView::Env { key: k, value: v }), true)
                } else {
                    (None, true)
                },
                None => (None, true),
            }
        } else {
            let msg = if line.last() == 13 { seq!['\r'] + t } else { t };
            (Some(EventView::Log { status: Status::Success, message: msg }), false)
        }
    }
}

/// A complete standard-error line: logged as an error unless undecodable or blank.
pub open spec fn stderr_line_event(line: Seq<u8>) -> Option<EventView> {
    if !vstd::utf8::valid_utf8(line) {
        None
    } else {
        let t = trim(vstd::utf8::decode_utf8(line), true);
        if t.len() == 0 {
            None
        } else {
            let msg = if line.last() == 13 { seq!['\r'] + t } else { t };
            Some(EventView::Log { status: Status::Error, message: msg })
        }
    }
}

/// The state of reading one stream: the unfinished line, the mode, and the events so far.
pub type ReadState = (Seq<u8>, bool, Seq<EventView>);

/// Reading one more standard-output byte.
pub open spec fn stdout_step(st: ReadState, b: u8, envs: Seq<Seq<char>>) -> ReadState {
    if is_line_end(b) {
        let (ev, env) = stdout_line_event(st.0.push(b), st.1, envs);
        (Seq::empty(), env, st.2 + opt_seq(ev))
    } else {
        (st.0.push(b), st.1, st.2)
    }
}

/// Reading bytes of standard output, one after the other.
pub open spec fn stdout_run(st: ReadState, bytes: Seq<u8>, envs: Seq<Seq<char>>) -> ReadState
    decreases bytes.len(),
{
    if bytes.len() == 0 {
        st
    } else {
        stdout_step(stdout_run(st, bytes.drop_last(), envs), bytes.last(), envs)
    }
}

/// Reading one more standard-error byte.
pub open spec fn stderr_step(st: ReadState, b: u8) -> ReadState {
    if is_line_end(b) {
        (Seq::empty(), st.1, st.2 + opt_seq(stderr_line_event(st.0.push(b))))
    } else {
        (st.0.push(b), st.1, st.2)
    }
}

/// Reading bytes of standard error, one after the other.
pub open spec fn stderr_run(st: ReadState, bytes: Seq<u8>) -> ReadState
    decreases bytes.len(),
{
    if bytes.len() == 0 {
        st
    } else {
        stderr_step(stderr_run(st, bytes.drop_last()), bytes.last())
    }
}

/// The unfinished line left when a stream closes: logged with the given status unless
/// empty, undecodable or blank, with a `\r` after it if its last byte is a carriage return.
pub open spec fn final_line_event(rest: Seq<u8>, status: Status) -> Option<EventView> {
    if rest.len() == 0 || !vstd::utf8::valid_utf8(rest) {
        None
    } else {
        let t = trim(vstd::utf8::decode_utf8(rest), true);
        if t.len() == 0 {
            None
        } else {
            let msg = if rest.last() == 13 { t + seq!['\r'] } else { t };
            Some(EventView::Log { status, message: msg })
        }
    }
}

/// Reading continues where the last chunk stopped: reading `a` and then `b` is reading `a + b`.
pub proof fn lemma_stdout_run_concat(st: ReadState, a: Seq<u8>, b: Seq<u8>, envs: Seq<Seq<char>>)
    ensures
        stdout_run(st, a + b, envs) == stdout_run(stdout_run(st, a, envs), b, envs),
    decreases b.len(),
{
    if b.len() == 0 {
        assert(a + b =~= a);
    } else {
        lemma_stdout_run_concat(st, a, b.drop_last(), envs);
        assert((a + b).drop_last() =~= a + b.drop_last());
        assert((a + b).last() == b.last());
    }
}

/// The events read so far are only ever extended.
pub proof fn lemma_stdout_run_events(st: ReadState, bytes: Seq<u8>, envs: Seq<Seq<char>>)
    ensures
        ({
            let r = stdout_run((st.0, st.1, Seq::empty()), bytes, envs);
            stdout_run(st, bytes, envs) == (r.0, r.1, st.2 + r.2)
        }),
    decreases bytes.len(),
{
    if bytes.len() > 0 {
        lemma_stdout_run_events(st, bytes.drop_last(), envs);
        let r = stdout_run((st.0, st.1, Seq::empty()), bytes.drop_last(), envs);
        let b = bytes.last();
        if is_line_end(b) {
            let (ev, env) = stdout_line_event(r.0.push(b), r.1, envs);
            assert(st.2 + r.2 + opt_seq(ev) =~= st.2 + (r.2 + opt_seq(ev)));
        }
    } else {
        assert(st.2 + Seq::<EventView>::empty() =~= st.2);
    }
}

/// How a standard-output stream is cut into chunks does not change what is read from
/// it: the events of reading `a` and then `b` are the events of reading `a + b`, and
/// the parser ends in the same state.
pub proof fn law_stdout_chunking(rest: Seq<u8>, env_mode: bool, a: Seq<u8>, b: Seq<u8>, envs: Seq<Seq<char>>)
    ensures
        ({
            let first = stdout_run((rest, env_mode, Seq::empty()), a, envs);
            let second = stdout_run((first.0, first.1, Seq::empty()), b, envs);
            stdout_run((rest, env_mode, Seq::empty()), a + b, envs) == (second.0, second.1, first.2 + second.2)
        }),
{
    let first = stdout_run((rest, env_mode, Seq::empty()), a, envs);
    lemma_stdout_run_concat((rest, env_mode, Seq::empty()), a, b, envs);
    lemma_stdout_run_events(first, b, envs);
}

/// Reading standard error continues where the last chunk stopped.
pub proof fn lemma_stderr_run_concat(st: ReadState, a: Seq<u8>, b: Seq<u8>)
    ensures
        stderr_run(st, a + b) == stderr_run(stderr_run(st, a), b),
    decreases b.len(),
{
    if b.len() == 0 {
        assert(a + b =~= a);
    } else {
        lemma_stderr_run_concat(st, a, b.drop_last());
        assert((a + b).drop_last() =~= a + b.drop_last());
        assert((a + b).last() == b.last());
    }
}

/// The standard-error events read so far are only ever extended.
pub proof fn lemma_stderr_run_events(st: ReadState, bytes: Seq<u8>)
    ensures
        ({
            let r = stderr_run((st.0, st.1, Seq::empty()), bytes);
            stderr_run(st, bytes) == (r.0, r.1, st.2 + r.2)
        }),
    decreases bytes.len(),
{
    if bytes.len() > 0 {
        lemma_stderr_run_events(st, bytes.drop_last());
        let r = stderr_run((st.0, st.1, Seq::empty()), bytes.drop_last());
        let b = bytes.last();
        if is_line_end(b) {
            let ev = stderr_line_event(r.0.push(b));
            assert(st.2 + r.2 + opt_seq(ev) =~= st.2 + (r.2 + opt_seq(ev)));
        }
    } else {
        assert(st.2 + Seq::<EventView>::empty() =~= st.2);
    }
}

/// How a standard-error stream is cut into chunks does not change what is read from it.
pub proof fn law_stderr_chunking(rest: Seq<u8>, a: Seq<u8>, b: Seq<u8>)
    ensures
        ({
            let first = stderr_run((rest, false, Seq::empty()), a);
            let second = stderr_run((first.0, first.1, Seq::empty()), b);
            stderr_run((rest, false, Seq::empty()), a + b) == (second.0, second.1, first.2 + second.2)
        }),
{
    let first = stderr_run((rest, false, Seq::empty()), a);
    lemma_stderr_run_concat((rest, false, Seq::empty()), a, b);
    lemma_stderr_run_events(first, b);
}

/// The unfinished line never holds a line end: every line end completes a line.
pub proof fn law_rest_has_no_line_end(st: ReadState, bytes: Seq<u8>, envs: Seq<Seq<char>>)
    requires
        forall|i: int| 0 <= i < st.0.len() ==> !is_line_end(#[trigger] st.0[i]),
    ensures
        forall|i: int| 0 <= i < stdout_run(st, bytes, envs).0.len() ==> !is_line_end(#[trigger] stdout_run(st, bytes, envs).0[i]),
        forall|i: int| 0 <= i < stderr_run(st, bytes).0.len() ==> !is_line_end(#[trigger] stderr_run(st, bytes).0[i]),
    decreases bytes.len(),
{
    if bytes.len() > 0 {
        law_rest_has_no_line_end(st, bytes.drop_last(), envs);
        let r = stdout_run(st, bytes.drop_last(), envs);
        let q = stderr_run(st, bytes.drop_last());
        let b = bytes.last();
        if !is_line_end(b) {
            assert forall|i: int| 0 <= i < r.0.push(b).len() implies !is_line_end(#[trigger] r.0.push(b)[i]) by {
                if i < r.0.len() {
                    assert(r.0.push(b)[i] == r.0[i]);
                }
            }
            assert forall|i: int| 0 <= i < q.0.push(b).len() implies !is_line_end(#[trigger] q.0.push(b)[i]) by {
                if i < q.0.len() {
                    assert(q.0.push(b)[i] == q.0[i]);
                }
            }
        }
    }
}

/// No carriage return or line feed in `cs`.
spec fn no_breaks(cs: Seq<char>) -> bool {
    forall|i: int| 0 <= i < cs.len() ==> cs[i] != '\r' && cs[i] != '\n'
}

/// Trimming line breaks off text that has none inside, with one line end after it,
/// gives back the text.
proof fn lemma_trim_line(cs: Seq<char>, end: char)
    requires
        cs.len() > 0,
        no_breaks(cs),
        end == '\r' || end == '\n',
    ensures
        crate::text::trim(cs.push(end), true) == cs,
        crate::text::trim(cs, true) == cs,
{
    let l = cs.push(end);
    assert(l[0] == cs[0]);
    assert(crate::text::trim_start(l, true) == l);
    assert(crate::text::trim_start(cs, true) == cs);
    assert(l.drop_last() =~= cs);
    assert(crate::text::trim_end(cs, true) == cs);
    assert(crate::text::trim_end(l, true) == crate::text::trim_end(cs, true));
}

/// A line with a line end after it holds the marker only where the text before the line
/// end does.
proof fn lemma_marker_in_line(cs: Seq<char>, end: char)
    requires
        end == '\r' || end == '\n',
        forall|k: int| 0 <= k && k + 5 <= cs.len() ==> #[trigger] cs.subrange(k, k + 5) != env_marker(),
    ensures
        !crate::text::has_substring(cs.push(end), env_marker()),
        !crate::text::has_substring(cs, env_marker()),
{
    let l = cs.push(end);
    if crate::text::has_substring(l, env_marker()) {
        let k = choose|k: int| 0 <= k && k + env_marker().len() <= l.len() && #[trigger] l.subrange(k, k + env_marker().len()) == env_marker();
        if k + 5 <= cs.len() {
            assert(l.subrange(k, k + 5) =~= cs.subrange(k, k + 5));
        } else {
            assert(l.subrange(k, k + 5)[4] == l[k + 4]);
            assert(l[k + 4] == end);
        }
    }
    if crate::text::has_substring(cs, env_marker()) {
        let k = choose|k: int| 0 <= k && k + env_marker().len() <= cs.len() && #[trigger] cs.subrange(k, k + env_marker().len()) == env_marker();
    }
}

/// A standard-output line read outside environment mode is logged with its text intact:
/// only the line end goes (indentation, trailing spaces and white-space-only text are
/// kept), and a carriage-return ending puts a `\r` before the message.
pub proof fn law_stdout_line_keeps_text(line: Seq<u8>, cs: Seq<char>, end: char, envs: Seq<Seq<char>>)
    requires
        vstd::utf8::valid_utf8(line),
        vstd::utf8::decode_utf8(line) == cs.push(end),
        end == '\r' || end == '\n',
        line.len() > 0 && line.last() == (if end == '\r' { 13u8 } else { 10u8 }),
        cs.len() > 0,
        forall|i: int| 0 <= i < cs.len() ==> cs[i] != '\r' && cs[i] != '\n',
        forall|k: int| 0 <= k && k + 5 <= cs.len() ==> #[trigger] cs.subrange(k, k + 5) != seq!['+', '_', '+', '_', '+'],
    ensures
        stdout_line_event(line, false, envs) == (
            Some(EventView::Log { status: Status::Success, message: if end == '\r' { seq!['\r'] + cs } else { cs } }),
            false,
        ),
{
    lemma_trim_line(cs, end);
    lemma_marker_in_line(cs, end);
}

/// A standard-error line is logged as an error with its text intact: only the line end
/// goes, and a carriage-return ending puts a `\r` before the message.
pub proof fn law_stderr_line_keeps_text(line: Seq<u8>, cs: Seq<char>, end: char)
    requires
        vstd::utf8::valid_utf8(line),
        vstd::utf8::decode_utf8(line) == cs.push(end),
        end == '\r' || end == '\n',
        line.len() > 0 && line.last() == (if end == '\r' { 13u8 } else { 10u8 }),
        cs.len() > 0,
        forall|i: int| 0 <= i < cs.len() ==> cs[i] != '\r' && cs[i] != '\n',
    ensures
        stderr_line_event(line) == Some(EventView::Log { status: Status::Error, message: if end == '\r' { seq!['\r'] + cs } else { cs } }),
{
    lemma_trim_line(cs, end);
}

/// The unfinished line left when a stream closes is logged with its text intact when it
/// holds no line break and is not empty.
pub proof fn law_final_line_keeps_text(rest: Seq<u8>, cs: Seq<char>, status: Status)
    requires
        vstd::utf8::valid_utf8(rest),
        vstd::utf8::decode_utf8(rest) == cs,
        rest.len() > 0 && rest.last() != 13,
        cs.len() > 0,
        forall|i: int| 0 <= i < cs.len() ==> cs[i] != '\r' && cs[i] != '\n',
    ensures
        final_line_event(rest, status) == Some(EventView::Log { status, message: cs }),
{
    lemma_trim_line(cs, '\n');
}

/// Reads the standard output and standard error of one build command.
pub struct OutputParser {
    stdout_partial: Vec<u8>,
    stderr_partial: Vec<u8>,
    is_env: bool,
    extract_envs: Vec<String>,
}

impl OutputParser {
    /// The unfinished standard-output line.
    pub closed spec fn stdout_rest(&self) -> Seq<u8> {
        self.stdout_partial@
    }

    /// The unfinished standard-error line.
    pub closed spec fn stderr_rest(&self) -> Seq<u8> {
        self.stderr_partial@
    }

    /// Whether the standard output has switched to environment mode.
    pub closed spec fn env_mode(&self) -> bool {
        self.is_env
    }

    /// The names of the environment values to extract.
    pub closed spec fn envs(&self) -> Seq<Seq<char>> {
        self.extract_envs@.map_values(|s: String| s@)
    }

    /// A parser at the start of both streams.
    pub fn new(extract_envs: Vec<String>) -> (p: Self)
        ensures
            p.stdout_rest() == Seq::<u8>::empty(),
            p.stderr_rest() == Seq::<u8>::empty(),
            !p.env_mode(),
            p.envs() == extract_envs@.map_values(|s: String| s@),
    {
        OutputParser { stdout_partial: Vec::new(), stderr_partial: Vec::new(), is_env: false, extract_envs }
    }

    /// Whether `key` is one of the names to extract.
    fn wants_env(&self, key: &[char]) -> (r: bool)
        ensures
            r == self.envs().contains(key@),
    {
        let mut i: usize = 0;
        while i < self.extract_envs.len()
            invariant
                i <= self.extract_envs@.len(),
                forall|j: int| 0 <= j < i ==> self.extract_envs@[j]@ != key@,
            decreases self.extract_envs@.len() - i,
        {
            let name = chars_of(self.extract_envs[i].as_str());
            if chars_equal(name.as_slice(), key) {
                assert(self.envs()[i as int] == key@);
                return true;
            }
            i = i + 1;
        }
        assert(!self.envs().contains(key@)) by {
            if self.envs().contains(key@) {
                let j = choose|j: int| 0 <= j < self.envs().len() && self.envs()[j] == key@;
                assert(self.extract_envs@[j]@ == key@);
            }
        }
        false
    }

    /// The event of a complete standard-output line, and the mode after it.
    fn stdout_line(&self, line: Vec<u8>) -> (r: (Option<OutputEvent>, bool))
        requires
            line@.len() > 0,
        ensures
            (match r.0 {
                Some(e) => Some(e@),
                None => None,
            }, r.1) == stdout_line_event(line@, self.env_mode(), self.envs()),
    {
        let ghost bytes = line@;
        let ends_cr = line[line.len() - 1] == 13;
        assert(ends_cr == (bytes.last() == 13));
        let decoded = decode_utf8(line);
        match decoded {
            None => {
                assert(!vstd::utf8::valid_utf8(bytes));
                (None, self.is_env)
            },
            Some(s) => {
                let chars = chars_of(s.as_str());
                let n = chars.len();
                let t = trim_chars(chars.as_slice(), true);
                if t.len() == 0 {
                    return (None, self.is_env);
                }
                let marker = vec!['+', '_', '+', '_', '+'];
                assert(marker@ =~= env_marker());
                if contains_chars(chars.as_slice(), marker.as_slice()) {
                    return (None, true);
                }
                if self.is_env {
                    match find_char(chars.as_slice(), '=') {
                        Some(p) => {
                            let k = slice_chars(chars.as_slice(), 0, p);
                            let v = slice_chars(chars.as_slice(), p + 1, n);
                            assert(k@ =~= chars@.take(p as int));
                            assert(v@ =~= chars@.skip(p + 1));
                            if self.wants_env(k.as_slice()) {
                                let key = string_from_chars(k.as_slice());
                                let value = string_from_chars(v.as_slice());
                                (Some(OutputEvent::Env { key, value }), true)
                            } else {
                                (None, true)
                            }
                        },
                        None => (None, true),
                    }
                } else {
                    let message = if ends_cr {
                        let mut m = vec!['\r'];
                        extend_chars(&mut m, t.as_slice());
                        assert(m@ =~= seq!['\r'] + t@);
                        string_from_chars(m.as_slice())
                    } else {
                        string_from_chars(t.as_slice())
                    };
                    let ghost expected = if bytes.last() == 13 { seq!['\r'] + t@ } else { t@ };
                    assert(message@ == expected);
                    (Some(OutputEvent::Log { status: Status::Success, message }), false)
                }
            },
        }
    }

    /// The event of a complete standard-error line.
    fn stderr_line(line: Vec<u8>) -> (r: Option<OutputEvent>)
        requires
            line@.len() > 0,
        ensures
            match r {
                Some(e) => stderr_line_event(line@) == Some(e@),
                None => stderr_line_event(line@) is None,
            },
    {
        let ghost bytes = line@;
        let ends_cr = line[line.len() - 1] == 13;
        assert(ends_cr == (bytes.last() == 13));
        match decode_utf8(line) {
            None => None,
            Some(s) => {
                let chars = chars_of(s.as_str());
                let t = trim_chars(chars.as_slice(), true);
                if t.len() == 0 {
                    return None;
                }
                let message = if ends_cr {
                    let mut m = vec!['\r'];
                    extend_chars(&mut m, t.as_slice());
                    assert(m@ =~= seq!['\r'] + t@);
                    string_from_chars(m.as_slice())
                } else {
                    string_from_chars(t.as_slice())
                };
                let ghost expected = if bytes.last() == 13 { seq!['\r'] + t@ } else { t@ };
                assert(message@ == expected);
                let e = OutputEvent::Log { status: Status::Error, message };
                assert(stderr_line_event(bytes) == Some(e@));
                Some(e)
            },
        }
    }

    /// Reads a chunk of standard output and returns the events of the lines it completes.
    pub fn feed_stdout(&mut self, chunk: &[u8]) -> (events: Vec<OutputEvent>)
        ensures
            (final(self).stdout_rest(), final(self).env_mode(), events_view(events@)) == stdout_run(
                (old(self).stdout_rest(), old(self).env_mode(), Seq::empty()),
                chunk@,
                old(self).envs(),
            ),
            final(self).stderr_rest() == old(self).stderr_rest(),
            final(self).envs() == old(self).envs(),
    {
        let ghost start: ReadState = (self.stdout_partial@, self.is_env, Seq::empty());
        let mut events: Vec<OutputEvent> = Vec::new();
        let mut i: usize = 0;
        assert(chunk@.take(0) =~= Seq::<u8>::empty());
        while i < chunk.len()
            invariant
                i <= chunk@.len(),
                (self.stdout_partial@, self.is_env, events_view(events@)) == stdout_run(
                    start,
                    chunk@.take(i as int),
                    self.envs(),
                ),
                self.stderr_partial@ == old(self).stderr_rest(),
                self.extract_envs == old(self).extract_envs,
                start.2 == Seq::<EventView>::empty(),
            decreases chunk.len() - i,
        {
            let b = chunk[i];
            let ghost before: ReadState = (self.stdout_partial@, self.is_env, events_view(events@));
            assert(chunk@.take(i + 1).drop_last() =~= chunk@.take(i as int));
            if b == 13 || b == 10 {
                let mut line: Vec<u8> = Vec::new();
                std::mem::swap(&mut line, &mut self.stdout_partial);
                line.push(b);
                let (ev, env) = self.stdout_line(line);
                self.is_env = env;
                match ev {
                    Some(e) => {
                        events.push(e);
                        assert(events_view(events@) =~= before.2 + seq![e@]);
                    },
                    None => {
                        assert(events_view(events@) =~= before.2 + Seq::<EventView>::empty());
                    },
                }
            } else {
                self.stdout_partial.push(b);
            }
            i = i + 1;
        }
        assert(chunk@.take(chunk@.len() as int) =~= chunk@);
        events
    }

    /// Reads a chunk of standard error and returns the events of the lines it completes.
    pub fn feed_stderr(&mut self, chunk: &[u8]) -> (events: Vec<OutputEvent>)
        ensures
            (final(self).stderr_rest(), events_view(events@)) == ({
                let st = stderr_run((old(self).stderr_rest(), false, Seq::empty()), chunk@);
                (st.0, st.2)
            }),
            final(self).stdout_rest() == old(self).stdout_rest(),
            final(self).env_mode() == old(self).env_mode(),
            final(self).envs() == old(self).envs(),
    {
        let ghost start: ReadState = (self.stderr_partial@, false, Seq::empty());
        let mut events: Vec<OutputEvent> = Vec::new();
        let mut i: usize = 0;
        assert(chunk@.take(0) =~= Seq::<u8>::empty());
        while i < chunk.len()
            invariant
                i <= chunk@.len(),
                ({
                    let st = stderr_run(start, chunk@.take(i as int));
                    st.0 == self.stderr_partial@ && st.2 == events_view(events@) && !st.1
                }),
                self.stdout_partial@ == old(self).stdout_rest(),
                self.is_env == old(self).env_mode(),
                self.extract_envs == old(self).extract_envs,
                start.2 == Seq::<EventView>::empty(),
                !start.1,
            decreases chunk.len() - i,
        {
            let b = chunk[i];
            let ghost before = events_view(events@);
            assert(chunk@.take(i + 1).drop_last() =~= chunk@.take(i as int));
            if b == 13 || b == 10 {
                let mut line: Vec<u8> = Vec::new();
                std::mem::swap(&mut line, &mut self.stderr_partial);
                line.push(b);
                let ev = Self::stderr_line(line);
                match ev {
                    Some(e) => {
                        events.push(e);
                        assert(events_view(events@) =~= before + seq![e@]);
                    },
                    None => {
                        assert(events_view(events@) =~= before + Seq::<EventView>::empty());
                    },
                }
            } else {
                self.stderr_partial.push(b);
            }
            i = i + 1;
        }
        assert(chunk@.take(chunk@.len() as int) =~= chunk@);
        events
    }

    /// The event of an unfinished line when its stream closes.
    fn final_line(rest: Vec<u8>, status: Status) -> (r: Option<OutputEvent>)
        ensures
            match r {
                Some(e) => final_line_event(rest@, status) == Some(e@),
                None => final_line_event(rest@, status) is None,
            },
    {
        if rest.len() == 0 {
            return None;
        }
        let ghost bytes = rest@;
        let ends_cr = rest[rest.len() - 1] == 13;
        assert(ends_cr == (bytes.last() == 13));
        match decode_utf8(rest) {
            None => None,
            Some(s) => {
                let chars = chars_of(s.as_str());
                let t = trim_chars(chars.as_slice(), true);
                if t.len() == 0 {
                    return None;
                }
                let ghost tv = t@;
                let mut m = t;
                if ends_cr {
                    m.push('\r');
                    assert(m@ =~= tv + seq!['\r']);
                }
                let message = string_from_chars(m.as_slice());
                let e = OutputEvent::Log { status, message };
                assert(final_line_event(bytes, status) == Some(e@));
                Some(e)
            },
        }
    }

    /// Closes both streams: the unfinished standard-output line, then the unfinished
    /// standard-error line, become log lines.
    pub fn finish(&mut self) -> (events: Vec<OutputEvent>)
        ensures
            events_view(events@) == opt_seq(final_line_event(old(self).stdout_rest(), Status::Success))
                + opt_seq(final_line_event(old(self).stderr_rest(), Status::Error)),
            final(self).stdout_rest() == Seq::<u8>::empty(),
            final(self).stderr_rest() == Seq::<u8>::empty(),
            final(self).env_mode() == old(self).env_mode(),
            final(self).envs() == old(self).envs(),
    {
        let mut out_rest: Vec<u8> = Vec::new();
        std::mem::swap(&mut out_rest, &mut self.stdout_partial);
        let mut err_rest: Vec<u8> = Vec::new();
        std::mem::swap(&mut err_rest, &mut self.stderr_partial);
        let mut events: Vec<OutputEvent> = Vec::new();
        match Self::final_line(out_rest, Status::Success) {
            Some(e) => events.push(e),
            None => {},
        }
        let ghost first = events_view(events@);
        match Self::final_line(err_rest, Status::Error) {
            Some(e) => {
                events.push(e);
                assert(events_view(events@) =~= first + seq![e@]);
            },
            None => {
                assert(events_view(events@) =~= first + Seq::<EventView>::empty());
            },
        }
        assert(first =~= opt_seq(final_line_event(old(self).stdout_rest(), Status::Success)));
        events
    }
}

} // verus!
