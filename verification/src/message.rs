//! Chat messages and their text form.
//!
//! A message is written as a header line, a line with the timestamp and the
//! contents:
//!
//! ```text
//! <sender_id> -> <to_id>
//! <timestamp>
//! <contents>
//! ```
//!
//! `format_message` and `parse_message` define the two directions on
//! character sequences; `Message::to_string` and `Message::from_string`
//! implement them.

use crate::error::{ChatError, FormatError};
use crate::text::{
    chars_of, crlf_at, decimal, find_char, is_digit, is_trimmed, lemma_decimal_digits,
    lemma_first_index, lemma_parse_decimal, lemma_trim_is_trimmed, lemma_trim_of_trimmed,
    lemma_trim_padded, lemma_unix_newlines_identity, lemma_unix_newlines_shorter, parse_u64,
    parse_u64_at, push_decimal, split_line, string_of, trim, trim_bounds, unix_newlines,
    unix_newlines_at,
};
use vstd::prelude::*;
use vstd::string::StringExecFns;

verus! {

/// One chat message. A timestamp of zero is no message but the notice that
/// its sender ends the session.
#[derive(Debug, PartialEq, Eq)]
pub struct Message {
    pub sender_id: String,
    pub to_id: String,
    pub contents: String,
    pub timestamp: u64,
}

/// A message as plain mathematical data.
pub struct MessageView {
    pub sender_id: Seq<char>,
    pub to_id: Seq<char>,
    pub contents: Seq<char>,
    pub timestamp: u64,
}

impl Clone for Message {
    fn clone(&self) -> (copy: Message)
        ensures
            copy@ == self@,
    {
        Message {
            sender_id: self.sender_id.clone(),
            to_id: self.to_id.clone(),
            contents: self.contents.clone(),
            timestamp: self.timestamp,
        }
    }
}

impl View for Message {
    type V = MessageView;

    open spec fn view(&self) -> MessageView {
        MessageView {
            sender_id: self.sender_id@,
            to_id: self.to_id@,
            contents: self.contents@,
            timestamp: self.timestamp,
        }
    }
}

// ---------------------------------------------------------------------------
// The text form
// ---------------------------------------------------------------------------

/// What stands between the two names in the header line.
pub open spec fn header_separator() -> Seq<char> {
    seq![' ', '-', '>', ' ']
}

/// What stands between sender and contents in the display form.
pub open spec fn display_separator() -> Seq<char> {
    seq![':', ' ']
}

/// The text form of a message.
pub open spec fn format_message(m: MessageView) -> Seq<char> {
    m.sender_id + header_separator() + m.to_id + seq!['\n'] + decimal(m.timestamp as nat)
        + seq!['\n'] + m.contents
}

/// The characters `->` start at `i`.
pub open spec fn arrow_at(s: Seq<char>, i: int) -> bool {
    0 <= i && i + 1 < s.len() && s[i] == '-' && s[i + 1] == '>'
}

/// The only `->` of `s` starts at `i`.
pub open spec fn sole_arrow(s: Seq<char>, i: int) -> bool {
    arrow_at(s, i) && forall|j: int| arrow_at(s, j) ==> j == i
}

/// The two names of a header line: what stands on either side of its one
/// `->`, trimmed. `None` where the line holds no `->` or more than one.
pub open spec fn split_header(s: Seq<char>) -> Option<(Seq<char>, Seq<char>)> {
    if exists|i: int| sole_arrow(s, i) {
        let i = choose|i: int| sole_arrow(s, i);
        Some((trim(s.take(i)), trim(s.skip(i + 2))))
    } else {
        None
    }
}

/// The message that a text stands for, or why it stands for none.
///
/// The first line is the header and the second the timestamp, trimmed and
/// read as a number. All that follows the second line is the contents, with
/// line ends normalised to line feeds and then trimmed. A text with fewer
/// than two lines is refused before its header is looked at, and a bad
/// header before the timestamp.
pub open spec fn parse_message(text: Seq<char>) -> Result<MessageView, FormatError> {
    let (header, below_header) = split_line(text);
    match below_header {
        Some(below) if below.len() > 0 => {
            let (stamp, below_stamp) = split_line(below);
            let body = match below_stamp {
                Some(body) => body,
                None => Seq::empty(),
            };
            match split_header(header) {
                None => Err(FormatError::Header),
                Some((sender_id, to_id)) => match parse_u64(trim(stamp)) {
                    None => Err(FormatError::Timestamp),
                    Some(timestamp) => Ok(
                        MessageView {
                            sender_id,
                            to_id,
                            contents: trim(unix_newlines(body)),
                            timestamp,
                        },
                    ),
                },
            }
        },
        _ => Err(FormatError::MissingLines),
    }
}

/// How a message is shown in a transcript.
pub open spec fn display_form(m: MessageView) -> Seq<char> {
    m.sender_id + display_separator() + m.contents
}

// ---------------------------------------------------------------------------
// When text form and message determine each other
// ---------------------------------------------------------------------------

/// A name that the header line can carry: trimmed, on one line and without
/// `->`.
pub open spec fn is_plain_name(s: Seq<char>) -> bool {
    &&& is_trimmed(s)
    &&& !s.contains('\n')
    &&& forall|i: int| !arrow_at(s, i)
}

/// Contents that the text form can carry: trimmed and without a carriage
/// return directly before a line feed.
pub open spec fn is_plain_contents(s: Seq<char>) -> bool {
    &&& is_trimmed(s)
    &&& forall|i: int| !crlf_at(s, i)
}

/// A message that its text form carries unchanged.
pub open spec fn is_canonical(m: MessageView) -> bool {
    &&& is_plain_name(m.sender_id)
    &&& is_plain_name(m.to_id)
    &&& is_plain_contents(m.contents)
}

/// A line followed by a line feed and more text splits into that line and
/// that text.
proof fn lemma_split_line_joined(line: Seq<char>, rest: Seq<char>)
    requires
        !line.contains('\n'),
    ensures
        split_line(line + seq!['\n'] + rest) == (line, Some(rest)),
{
    let s = line + seq!['\n'] + rest;
    let i = line.len() as int;
    assert(s[i] == '\n');
    assert forall|j: int| 0 <= j < i implies s[j] != '\n' by {
        assert(s[j] == line[j]);
        assert(line.contains(line[j]));
    }
    lemma_first_index(s, '\n', i);
    assert(s.take(i) =~= line);
    assert(s.skip(i + 1) =~= rest);
}

/// The header line of two plain names splits into these names.
proof fn lemma_split_header_joined(a: Seq<char>, b: Seq<char>)
    requires
        is_plain_name(a),
        is_plain_name(b),
    ensures
        split_header(a + header_separator() + b) == Some((a, b)),
{
    let h = a + header_separator() + b;
    let at = a.len() as int + 1;
    assert(h[at] == '-' && h[at + 1] == '>');
    assert(arrow_at(h, at));
    assert forall|j: int| arrow_at(h, j) implies j == at by {
        if j + 1 < a.len() {
            assert(h[j] == a[j] && h[j + 1] == a[j + 1]);
            assert(arrow_at(a, j));
        } else if j >= a.len() + 4 {
            let k = j - a.len() - 4;
            assert(h[j] == b[k] && h[j + 1] == b[k + 1]);
            assert(arrow_at(b, k));
        } else if j == a.len() - 1 {
            assert(h[j + 1] == ' ');
        } else if j == a.len() {
            assert(h[j] == ' ');
        } else if j == a.len() + 2 {
            assert(h[j] == '>');
        } else if j == a.len() + 3 {
            assert(h[j] == ' ');
        }
    }
    assert(sole_arrow(h, at));
    let i = choose|i: int| sole_arrow(h, i);
    assert(i == at);
    assert(h.take(at) =~= Seq::<char>::empty() + a + seq![' ']);
    assert(h.skip(at + 2) =~= seq![' '] + b + Seq::<char>::empty());
    lemma_trim_padded(Seq::empty(), a, seq![' ']);
    lemma_trim_padded(seq![' '], b, Seq::empty());
}

/// Parsing the text form of a canonical message gives the message back.
pub proof fn lemma_round_trip(m: MessageView)
    requires
        is_canonical(m),
    ensures
        parse_message(format_message(m)) == Ok::<MessageView, FormatError>(m),
{
    let header = m.sender_id + header_separator() + m.to_id;
    let stamp = decimal(m.timestamp as nat);
    let below = stamp + seq!['\n'] + m.contents;
    let text = format_message(m);
    assert(text =~= header + seq!['\n'] + below);

    assert(!header.contains('\n')) by {
        if header.contains('\n') {
            let k = choose|k: int| 0 <= k < header.len() && header[k] == '\n';
            if k < m.sender_id.len() {
                assert(m.sender_id[k] == '\n');
                assert(m.sender_id.contains('\n'));
            } else if k >= m.sender_id.len() + 4 {
                assert(m.to_id[k - m.sender_id.len() - 4] == '\n');
                assert(m.to_id.contains('\n'));
            } else {
                assert(header[k] == header_separator()[k - m.sender_id.len()]);
            }
        }
    }
    lemma_split_line_joined(header, below);

    lemma_decimal_digits(m.timestamp as nat);
    assert(!stamp.contains('\n')) by {
        if stamp.contains('\n') {
            let k = choose|k: int| 0 <= k < stamp.len() && stamp[k] == '\n';
            assert(is_digit(stamp[k]));
        }
    }
    lemma_split_line_joined(stamp, m.contents);

    lemma_split_header_joined(m.sender_id, m.to_id);

    assert(is_trimmed(stamp)) by {
        assert(is_digit(stamp[0]));
        assert(is_digit(stamp.last()));
    }
    lemma_trim_of_trimmed(stamp);
    lemma_parse_decimal(m.timestamp);

    lemma_unix_newlines_identity(m.contents);
    lemma_trim_of_trimmed(m.contents);
}

/// The place of the one `->` of a header line that splits.
proof fn lemma_split_header_parts(h: Seq<char>) -> (at: int)
    requires
        split_header(h) is Some,
    ensures
        sole_arrow(h, at),
        split_header(h) == Some((trim(h.take(at)), trim(h.skip(at + 2)))),
{
    choose|i: int| sole_arrow(h, i)
}

/// Only a canonical message comes back from its text form unchanged.
pub proof fn lemma_round_trip_only(m: MessageView)
    requires
        parse_message(format_message(m)) == Ok::<MessageView, FormatError>(m),
    ensures
        is_canonical(m),
{
    let sender = m.sender_id;
    let to = m.to_id;
    let header = sender + header_separator() + to;
    let stamp = decimal(m.timestamp as nat);
    let below = stamp + seq!['\n'] + m.contents;
    let text = format_message(m);
    assert(text =~= header + seq!['\n'] + below);
    let arrow = sender.len() as int + 1;

    // The first line is the whole header: a line feed in a name would cut
    // the header short, and what is left of it is too short for the names.
    assert(!header.contains('\n')) by {
        if header.contains('\n') {
            header.index_of_first_ensures('\n');
            let cut = header.index_of_first('\n').unwrap();
            assert forall|j: int| 0 <= j < cut implies text[j] != '\n' by {
                assert(text[j] == header[j]);
            }
            assert(text[cut] == header[cut]);
            lemma_first_index(text, '\n', cut);
            let line = text.take(cut);
            assert(line =~= header.take(cut));
            let at = lemma_split_header_parts(line);
            lemma_trim_is_trimmed(line.take(at));
            lemma_trim_is_trimmed(line.skip(at + 2));
            if cut < sender.len() {
                assert(trim(line.take(at)).len() < sender.len());
            } else {
                assert(cut >= sender.len() + 4) by {
                    if cut < sender.len() + 4 {
                        assert(header[cut] == header_separator()[cut - sender.len()]);
                    }
                }
                assert(line[arrow] == '-' && line[arrow + 1] == '>');
                assert(arrow_at(line, arrow));
                assert(at == arrow);
                assert(line.skip(at + 2)[0] == ' ');
                assert(trim(line.skip(at + 2)).len() < to.len());
            }
        }
    }
    lemma_split_line_joined(header, below);

    // The header has its one arrow between the names, so the names hold
    // none, and they are what trimming gave.
    let at = lemma_split_header_parts(header);
    assert(header[arrow] == '-' && header[arrow + 1] == '>');
    assert(arrow_at(header, arrow));
    assert(at == arrow);
    lemma_trim_is_trimmed(header.take(at));
    lemma_trim_is_trimmed(header.skip(at + 2));
    assert forall|j: int| !arrow_at(sender, j) by {
        if arrow_at(sender, j) {
            assert(header[j] == sender[j] && header[j + 1] == sender[j + 1]);
            assert(arrow_at(header, j));
        }
    }
    assert forall|j: int| !arrow_at(to, j) by {
        if arrow_at(to, j) {
            let k = sender.len() + 4 + j;
            assert(header[k] == to[j] && header[k + 1] == to[j + 1]);
            assert(arrow_at(header, k));
        }
    }
    assert(!sender.contains('\n')) by {
        if sender.contains('\n') {
            let k = choose|k: int| 0 <= k < sender.len() && sender[k] == '\n';
            assert(header[k] == '\n');
        }
    }
    assert(!to.contains('\n')) by {
        if to.contains('\n') {
            let k = choose|k: int| 0 <= k < to.len() && to[k] == '\n';
            assert(header[sender.len() + 4 + k] == '\n');
        }
    }

    // The contents are all that follows the second line, and what was done
    // to them did not change them.
    lemma_decimal_digits(m.timestamp as nat);
    assert(!stamp.contains('\n')) by {
        if stamp.contains('\n') {
            let k = choose|k: int| 0 <= k < stamp.len() && stamp[k] == '\n';
            assert(is_digit(stamp[k]));
        }
    }
    lemma_split_line_joined(stamp, m.contents);
    lemma_trim_is_trimmed(unix_newlines(m.contents));
    assert forall|j: int| !crlf_at(m.contents, j) by {
        if crlf_at(m.contents, j) {
            lemma_unix_newlines_shorter(m.contents, j);
        }
    }
}

// ---------------------------------------------------------------------------
// Executable code
// ---------------------------------------------------------------------------

/// The first position in the window `[lo, hi)` of `v` at which `->` starts
/// inside the window, or `hi` if there is none.
fn find_arrow(v: &[char], lo: usize, hi: usize) -> (i: usize)
    requires
        lo <= hi <= v.len(),
    ensures
        lo <= i <= hi,
        i < hi ==> arrow_at(v@.take(hi as int), i as int),
        forall|j: int| lo <= j < i ==> !arrow_at(v@.take(hi as int), j),
{
    let mut i = lo;
    while i < hi
        invariant
            lo <= i <= hi <= v.len(),
            forall|j: int| lo <= j < i ==> !arrow_at(v@.take(hi as int), j),
        decreases hi - i,
    {
        if i + 1 < hi && v[i] == '-' && v[i + 1] == '>' {
            return i;
        }
        i += 1;
    }
    hi
}

/// The trimmed bounds of the two names in the header window `[lo, hi)` of
/// `v`.
fn split_header_at(v: &[char], lo: usize, hi: usize) -> (r: Option<(usize, usize, usize, usize)>)
    requires
        lo <= hi <= v.len(),
    ensures
        match split_header(v@.subrange(lo as int, hi as int)) {
            Some((a, b)) => r matches Some(w) && lo <= w.0 <= w.1 <= w.2 <= w.3 <= hi
                && v@.subrange(w.0 as int, w.1 as int) == a && v@.subrange(w.2 as int, w.3 as int)
                == b,
            None => r is None,
        },
{
    let ghost h = v@.subrange(lo as int, hi as int);
    let ghost w = v@.take(hi as int);
    proof {
        assert forall|j: int| arrow_at(h, j) <==> lo <= lo + j && arrow_at(w, lo + j) by {
            if 0 <= j && j + 1 < h.len() {
                assert(h[j] == w[lo + j] && h[j + 1] == w[lo + j + 1]);
            }
        }
    }
    let first = find_arrow(v, lo, hi);
    if first == hi {
        return None;
    }
    let second = find_arrow(v, first + 2, hi);
    proof {
        assert(arrow_at(h, first - lo));
    }
    if second < hi {
        proof {
            assert(arrow_at(h, second - lo));
        }
        return None;
    }
    proof {
        assert forall|j: int| arrow_at(h, j) implies j == first - lo by {
            assert(arrow_at(w, lo + j));
            if lo + j == first + 1 {
                assert(w[first + 1] == '>');
            }
        }
        assert(sole_arrow(h, first - lo));
        let i = choose|i: int| sole_arrow(h, i);
        assert(i == first - lo);
        assert(h.take(i) =~= v@.subrange(lo as int, first as int));
        assert(h.skip(i + 2) =~= v@.subrange(first as int + 2, hi as int));
    }
    let (a0, a1) = trim_bounds(v, lo, first);
    let (b0, b1) = trim_bounds(v, first + 2, hi);
    Some((a0, a1, b0, b1))
}

impl Message {
    /// The text form of the message.
    pub fn to_string(&self) -> (text: String)
        ensures
            text@ == format_message(self@),
    {
        let mut text = String::new();
        text.append(self.sender_id.as_str());
        text.push(' ');
        text.push('-');
        text.push('>');
        text.push(' ');
        text.append(self.to_id.as_str());
        text.push('\n');
        push_decimal(&mut text, self.timestamp);
        text.push('\n');
        text.append(self.contents.as_str());
        proof {
            assert(text@ =~= format_message(self@));
        }
        text
    }

    /// The message that `message` is the text form of.
    pub fn from_string(message: String) -> (r: Result<Message, ChatError>)
        ensures
            match parse_message(message@) {
                Ok(view) => r matches Ok(m) && m@ == view,
                Err(e) => r matches Err(err) && err == ChatError::Format(e),
            },
    {
        let chars = chars_of(message.as_str());
        let v = chars.as_slice();
        let n = v.len();
        proof {
            assert(v@.subrange(0, n as int) =~= message@);
        }
        let end_header = find_char(v, 0, n, '\n');
        if end_header >= n || end_header + 1 >= n {
            proof {
                if end_header < n {
                    assert(message@.skip(end_header + 1).len() == 0);
                }
            }
            return Err(ChatError::Format(FormatError::MissingLines));
        }
        let ghost below = message@.skip(end_header + 1);
        proof {
            assert(below =~= v@.subrange(end_header + 1, n as int));
            assert(message@.take(end_header as int) =~= v@.subrange(0, end_header as int));
        }
        let end_stamp = find_char(v, end_header + 1, n, '\n');
        let body_start = if end_stamp < n {
            end_stamp + 1
        } else {
            n
        };
        proof {
            let k = end_stamp - (end_header + 1);
            if end_stamp < n {
                assert(below.take(k) =~= v@.subrange(end_header + 1, end_stamp as int));
                assert(below.skip(k + 1) =~= v@.subrange(body_start as int, n as int));
            } else {
                assert(below =~= v@.subrange(end_header + 1, end_stamp as int));
                assert(Seq::<char>::empty() =~= v@.subrange(body_start as int, n as int));
            }
        }
        let names = match split_header_at(v, 0, end_header) {
            Some(names) => names,
            None => {
                return Err(ChatError::Format(FormatError::Header));
            },
        };
        let (stamp_lo, stamp_hi) = trim_bounds(v, end_header + 1, end_stamp);
        let timestamp = match parse_u64_at(v, stamp_lo, stamp_hi) {
            Some(timestamp) => timestamp,
            None => {
                return Err(ChatError::Format(FormatError::Timestamp));
            },
        };
        let body = unix_newlines_at(v, body_start, n);
        let (body_lo, body_hi) = trim_bounds(body.as_slice(), 0, body.len());
        proof {
            assert(body@.subrange(0, body.len() as int) =~= body@);
        }
        Ok(
            Message {
                sender_id: string_of(v, names.0, names.1),
                to_id: string_of(v, names.2, names.3),
                contents: string_of(body.as_slice(), body_lo, body_hi),
                timestamp,
            },
        )
    }

    /// The message as a transcript shows it: the sender, a colon and a
    /// space, and the contents.
    pub fn displayable(&self) -> (line: String)
        ensures
            line@ == display_form(self@),
    {
        let mut line = String::new();
        line.append(self.sender_id.as_str());
        line.push(':');
        line.push(' ');
        line.append(self.contents.as_str());
        proof {
            assert(line@ =~= display_form(self@));
        }
        line
    }

    /// Whether the message is the notice that its sender ends the session.
    pub fn is_termination(&self) -> (r: bool)
        ensures
            r == (self.timestamp == 0),
    {
        self.timestamp == 0
    }
}

/// The name that outgoing messages are addressed to.
pub open spec fn default_recipient() -> Seq<char> {
    seq!['R', 'e', 'c', 'i', 'e', 'v', 'e', 'r']
}

/// The message that `name` sends at `time` with `text` as its contents.
pub fn message(text: &str, name: &str, time: u64) -> (m: Message)
    ensures
        m@ == (MessageView {
            sender_id: name@,
            to_id: default_recipient(),
            contents: text@,
            timestamp: time,
        }),
{
    let to_id = String::from_str("Reciever");
    proof {
        reveal_strlit("Reciever");
        assert(to_id@ =~= default_recipient());
    }
    Message {
        sender_id: String::from_str(name),
        to_id,
        contents: String::from_str(text),
        timestamp: time,
    }
}

} // verus!
