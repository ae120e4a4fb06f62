//! What the operator sees and types: the transcript and the input line.
//!
//! `ChatWindow` holds both and says what a key does to them. Drawing is
//! left to whoever owns the terminal.

use crate::runtime::{quit_command, quit_text};
use crate::text::string_of;
use vstd::prelude::*;
use vstd::string::StringExecFns;

verus! {

/// The rows of a window that are not for the transcript: the frame and the
/// input line.
pub const RESERVED_ROWS: u16 = 4;

/// A key that the operator pressed.
#[derive(Clone, Copy, Debug, PartialEq, Eq, Structural)]
pub enum Key {
    Enter,
    Char(char),
    Backspace,
    Esc,
    /// Any key without a meaning here.
    Other,
}

/// The chat window: the lines of the transcript, oldest first, what has
/// been typed and not yet submitted, and the height of the terminal in rows.
pub struct ChatWindow {
    messages: Vec<String>,
    input_buffer: Vec<char>,
    window_height: u16,
}

/// A chat window as plain mathematical data.
pub struct ChatWindowView {
    pub messages: Seq<Seq<char>>,
    pub input: Seq<char>,
    pub height: u16,
}

/// What stands between a name and what was said in a line of the
/// transcript.
pub open spec fn line_separator() -> Seq<char> {
    seq!['>', ' ']
}

/// A line of the transcript.
pub open spec fn transcript_line(name: Seq<char>, contents: Seq<char>) -> Seq<char> {
    name + line_separator() + contents
}

/// The index of the first line of the transcript that a window of this
/// height shows: it shows the newest lines, as many as fit above the
/// reserved rows.
pub open spec fn first_visible(lines: nat, height: u16) -> nat {
    let rows: nat = if height >= RESERVED_ROWS {
        (height - RESERVED_ROWS) as nat
    } else {
        0
    };
    if lines > rows {
        (lines - rows) as nat
    } else {
        0
    }
}

/// What a key does to a window of the operator `name`, and the contents of
/// the message that the operator submits with it, if any.
///
/// A character is appended to the input and `Backspace` takes the last one
/// away. `Enter` submits the input, unless it is empty, puts it into the
/// transcript and clears it. `Esc` submits the quit command and leaves the
/// window as it is.
pub open spec fn key_pressed(window: ChatWindowView, key: Key, name: Seq<char>) -> (
    ChatWindowView,
    Option<Seq<char>>,
) {
    match key {
        Key::Char(c) => (ChatWindowView { input: window.input.push(c), ..window }, None),
        Key::Backspace => if window.input.len() > 0 {
            (ChatWindowView { input: window.input.drop_last(), ..window }, None)
        } else {
            (window, None)
        },
        Key::Enter => if window.input.len() > 0 {
            (
                ChatWindowView {
                    messages: window.messages.push(transcript_line(name, window.input)),
                    input: Seq::empty(),
                    ..window
                },
                Some(window.input),
            )
        } else {
            (window, None)
        },
        Key::Esc => (window, Some(quit_command())),
        Key::Other => (window, None),
    }
}

impl View for ChatWindow {
    type V = ChatWindowView;

    closed spec fn view(&self) -> ChatWindowView {
        ChatWindowView {
            messages: self.messages.deep_view(),
            input: self.input_buffer@,
            height: self.window_height,
        }
    }
}

impl ChatWindow {
    /// An empty window in a terminal of `window_height` rows.
    pub fn new(window_height: u16) -> (window: ChatWindow)
        ensures
            window@ == (ChatWindowView {
                messages: Seq::empty(),
                input: Seq::empty(),
                height: window_height,
            }),
    {
        let window = ChatWindow {
            messages: Vec::new(),
            input_buffer: Vec::new(),
            window_height,
        };
        proof {
            assert(window.messages.deep_view() =~= Seq::<Seq<char>>::empty());
        }
        window
    }

    /// Appends a line to the transcript.
    pub fn push_line(&mut self, line: String)
        ensures
            final(self)@ == (ChatWindowView {
                messages: old(self)@.messages.push(line@),
                ..old(self)@
            }),
    {
        let ghost before = self.messages.deep_view();
        self.messages.push(line);
        proof {
            assert(self.messages.deep_view() =~= before.push(line@));
        }
    }

    /// Appends to the transcript what `name` said.
    pub fn push_message(&mut self, name: &str, contents: &str)
        ensures
            final(self)@ == (ChatWindowView {
                messages: old(self)@.messages.push(transcript_line(name@, contents@)),
                ..old(self)@
            }),
    {
        let mut line = String::from_str(name);
        line.push('>');
        line.push(' ');
        line.append(contents);
        proof {
            assert(line@ =~= transcript_line(name@, contents@));
        }
        self.push_line(line);
    }

    /// Takes a key of the operator `name`, and returns the contents of the
    /// message that the operator submits with it, if any.
    pub fn handle_key(&mut self, key: Key, name: &str) -> (submitted: Option<String>)
        ensures
            final(self)@ == key_pressed(old(self)@, key, name@).0,
            match key_pressed(old(self)@, key, name@).1 {
                Some(contents) => submitted matches Some(text) && text@ == contents,
                None => submitted is None,
            },
    {
        match key {
            Key::Char(c) => {
                self.input_buffer.push(c);
                None
            },
            Key::Backspace => {
                if self.input_buffer.len() > 0 {
                    self.input_buffer.pop();
                }
                None
            },
            Key::Enter => {
                if self.input_buffer.len() > 0 {
                    let text = string_of(self.input_buffer.as_slice(), 0, self.input_buffer.len());
                    proof {
                        assert(self.input_buffer@.subrange(0, self.input_buffer@.len() as int)
                            =~= self.input_buffer@);
                    }
                    self.push_message(name, text.as_str());
                    self.input_buffer.clear();
                    Some(text)
                } else {
                    None
                }
            },
            Key::Esc => Some(quit_text()),
            Key::Other => None,
        }
    }

    /// The number of lines in the transcript.
    pub fn len(&self) -> (n: usize)
        ensures
            n == self@.messages.len(),
    {
        self.messages.len()
    }

    /// The line of the transcript at `index`, if there is one.
    pub fn line(&self, index: usize) -> (line: Option<&String>)
        ensures
            index < self@.messages.len() ==> (line matches Some(text) && text@
                == self@.messages[index as int]),
            index >= self@.messages.len() ==> line is None,
    {
        if index < self.messages.len() {
            Some(&self.messages[index])
        } else {
            None
        }
    }

    /// The index of the first line that the window shows; the lines from
    /// there to the end of the transcript are the visible ones.
    pub fn visible_from(&self) -> (index: usize)
        ensures
            index == first_visible(self@.messages.len(), self@.height),
    {
        let rows: usize = if self.window_height >= RESERVED_ROWS {
            (self.window_height - RESERVED_ROWS) as usize
        } else {
            0
        };
        let lines = self.messages.len();
        if lines > rows {
            lines - rows
        } else {
            0
        }
    }

    /// What has been typed and not yet submitted.
    pub fn input(&self) -> (text: String)
        ensures
            text@ == self@.input,
    {
        let text = string_of(self.input_buffer.as_slice(), 0, self.input_buffer.len());
        proof {
            assert(self.input_buffer@.subrange(0, self.input_buffer@.len() as int)
                =~= self.input_buffer@);
        }
        text
    }

    /// The height of the terminal in rows.
    pub fn height(&self) -> (rows: u16)
        ensures
            rows == self@.height,
    {
        self.window_height
    }
}

} // verus!
