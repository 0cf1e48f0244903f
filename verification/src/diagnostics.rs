//! Diagnostics: what went wrong, where, and inside which larger construct.
//!
//! A diagnostic is a stack of entries, the innermost first. Each entry holds a
//! character position of the input and what was expected there. A diagnostic
//! can be rendered against its input as a trace that shows, for each entry,
//! the offending line with a caret under the failing column.

use vstd::prelude::*;
use vstd::string::*;
use nom::error::ErrorKind;
use nom::error::VerboseError;
use nom::error::VerboseErrorKind;

verus! {

/// The wording of a context entry.
#[derive(Clone, Copy, Debug, PartialEq, Eq, Hash, Structural)]
pub enum Message {
    /// No declaration could be read where the first one was expected.
    AtLeastOneType,
    /// A comment line was expected.
    CommentStart,
    /// A declaration of a product or sum type was expected.
    TypeDeclaration,
    /// Behind the type of a field stands something that cannot follow it.
    FieldEnd,
    /// A type name was expected.
    TypeIdStart,
    /// A constructor name was expected.
    ConstrIdStart,
    /// A field name was expected.
    IdStart,
    /// The input ended where a character was expected.
    EndOfInput,
}

/// Which elementary rule failed, for an entry that no context has replaced.
#[derive(Clone, Copy, Debug, PartialEq, Eq, Hash, Structural)]
pub enum Code {
    Alt,
    Many1,
    TakeWhileMN,
    OneOf,
    Tag,
    IsA,
}

/// What an entry of a diagnostic says.
#[derive(Clone, Copy, Debug, PartialEq, Eq, Hash, Structural)]
pub enum Kind {
    /// The construct that was being read.
    Context(Message),
    /// The character that was expected.
    Char(char),
    /// The elementary rule that failed.
    Nom(Code),
}

/// A diagnostic: entries of position and kind, the innermost first.
#[derive(Clone, Debug, PartialEq)]
pub struct Error {
    pub errors: Vec<(usize, Kind)>,
}

impl DeepView for Error {
    type V = Seq<(usize, Kind)>;

    open spec fn deep_view(&self) -> Seq<(usize, Kind)> {
        self.errors@
    }
}

impl Message {
    /// The words of the message.
    pub open spec fn wording(self) -> Seq<char> {
        match self {
            Message::AtLeastOneType => "Expected at least one type declaration"@,
            Message::CommentStart => "Comment line should start with '//'"@,
            Message::TypeDeclaration => "Expected Product or Sum type declaration"@,
            Message::FieldEnd => "Expected * ? ) , or whitespace."@,
            Message::TypeIdStart => "Type Id should start with lowercase character"@,
            Message::ConstrIdStart => "Constructor Id should start with uppercase character"@,
            Message::IdStart => "Id should start with alpha character"@,
            Message::EndOfInput => "Unexpected end of input"@,
        }
    }

    /// The words of the message.
    pub fn text(&self) -> (s: &'static str)
        ensures
            s@ == self.wording(),
    {
        match self {
            Message::AtLeastOneType => "Expected at least one type declaration",
            Message::CommentStart => "Comment line should start with '//'",
            Message::TypeDeclaration => "Expected Product or Sum type declaration",
            Message::FieldEnd => "Expected * ? ) , or whitespace.",
            Message::TypeIdStart => "Type Id should start with lowercase character",
            Message::ConstrIdStart => "Constructor Id should start with uppercase character",
            Message::IdStart => "Id should start with alpha character",
            Message::EndOfInput => "Unexpected end of input",
        }
    }
}

/// The entries after a context has been put around them: the context goes on
/// top, in place of a topmost entry that only names an elementary rule.
pub open spec fn with_context(errors: Seq<(usize, Kind)>, input: usize, ctx: Message) -> Seq<
    (usize, Kind),
> {
    let inner = if errors.len() > 0 && errors.last().1 is Nom {
        errors.drop_last()
    } else {
        errors
    };
    inner.push((input, Kind::Context(ctx)))
}

/// An entry as it can be shown against an input of `len` characters: its
/// position lies inside the input or at its end, and where it expects a
/// character at the end of a non-empty input, it says that the input ended.
pub open spec fn shown(entry: (usize, Kind), len: nat) -> (usize, Kind) {
    if entry.0 >= len {
        (
            len as usize,
            if entry.1 is Char && len > 0 {
                Kind::Context(Message::EndOfInput)
            } else {
                entry.1
            },
        )
    } else {
        entry
    }
}

/// The entries of a diagnostic as they are shown against an input of `len`
/// characters.
pub open spec fn printable(errors: Seq<(usize, Kind)>, len: nat) -> Seq<(usize, Kind)> {
    Seq::new(errors.len(), |i: int| shown(errors[i], len))
}

/// An entry as the trace writer takes it: the character that was expected,
/// the words of a context, or the elementary rule that failed.
#[derive(Clone, Copy, Debug, PartialEq)]
pub enum Frame {
    Char(char),
    Context(&'static str),
    Nom(Code),
}

/// What a frame holds, with its words as characters.
pub enum FrameView {
    Char(char),
    Context(Seq<char>),
    Nom(Code),
}

impl View for Frame {
    type V = FrameView;

    open spec fn view(&self) -> FrameView {
        match self {
            Frame::Char(c) => FrameView::Char(*c),
            Frame::Context(words) => FrameView::Context(words@),
            Frame::Nom(code) => FrameView::Nom(*code),
        }
    }
}

impl Kind {
    /// The frame that shows an entry of this kind: a context is shown by the
    /// words of its message.
    pub open spec fn frame(self) -> FrameView {
        match self {
            Kind::Char(c) => FrameView::Char(c),
            Kind::Context(m) => FrameView::Context(m.wording()),
            Kind::Nom(code) => FrameView::Nom(code),
        }
    }

    /// The frame that shows an entry of this kind.
    pub fn to_frame(&self) -> (f: Frame)
        ensures
            f@ == self.frame(),
    {
        match self {
            Kind::Char(c) => Frame::Char(*c),
            Kind::Context(m) => Frame::Context(m.text()),
            Kind::Nom(code) => Frame::Nom(*code),
        }
    }
}

/// The frames that show the entries `errors`, each at the place of its entry.
pub open spec fn frames_of(errors: Seq<(usize, Kind)>) -> Seq<(usize, FrameView)> {
    Seq::new(errors.len(), |i: int| (errors[i].0, errors[i].1.frame()))
}

/// What the frames `frames` hold, each with its place.
pub open spec fn frame_views(frames: Seq<(usize, Frame)>) -> Seq<(usize, FrameView)> {
    Seq::new(frames.len(), |i: int| (frames[i].0, frames[i].1@))
}

/// Whether every frame can be shown against an input of `len` characters:
/// its place lies in the input or at its end, and a character is expected
/// only where the input has one, unless the input is empty.
pub open spec fn traceable(frames: Seq<(usize, FrameView)>, len: nat) -> bool {
    forall|i: int|
        0 <= i < frames.len() ==> {
            &&& (#[trigger] frames[i]).0 <= len
            &&& (frames[i].1 is Char && len > 0 ==> frames[i].0 < len)
        }
}

/// The trace that `nom::error::convert_error` writes for an input and for
/// frames, each frame given by its character position in the input and by
/// what it holds.
pub uninterp spec fn trace(input: Seq<char>, frames: Seq<(usize, FrameView)>) -> Seq<char>;

/// Calls `nom::error::convert_error` on the input and on the frames. Each
/// frame is handed over as the rest of the input from its position on and
/// as the value of the same variant: the expected character, the words, or
/// the rule. The contract names the text that comes back. It leaves out the
/// one case in which that function does not return: a frame that expects a
/// character where a non-empty input has ended.
#[verifier::external_body]
fn nom_convert_error(input: &str, frames: &Vec<(usize, Frame)>) -> (text: String)
    requires
        traceable(frame_views(frames@), input@.len()),
    ensures
        text@ == trace(input@, frame_views(frames@)),
{
    let rest = |at: usize| &input[input.char_indices().nth(at).map_or(input.len(), |c| c.0)..];
    let errors = frames.iter().map(|f| (rest(f.0), match f.1 {
        Frame::Char(c) => VerboseErrorKind::Char(c),
        Frame::Context(words) => VerboseErrorKind::Context(words),
        Frame::Nom(code) => VerboseErrorKind::Nom(match code {
            Code::Alt => ErrorKind::Alt,
            Code::Many1 => ErrorKind::Many1,
            Code::TakeWhileMN => ErrorKind::TakeWhileMN,
            Code::OneOf => ErrorKind::OneOf,
            Code::Tag => ErrorKind::Tag,
            Code::IsA => ErrorKind::IsA,
        }),
    })).collect();
    nom::error::convert_error(input, VerboseError { errors })
}

impl Error {
    /// A diagnostic of one entry: rule `kind` failed at `input`.
    pub fn from_error_kind(input: usize, kind: Code) -> (e: Error)
        ensures
            e.errors@ == seq![(input, Kind::Nom(kind))],
    {
        let mut errors: Vec<(usize, Kind)> = Vec::new();
        errors.push((input, Kind::Nom(kind)));
        Error { errors }
    }

    /// `other` with one more entry on top: rule `kind` failed at `input`.
    pub fn append(input: usize, kind: Code, other: Error) -> (e: Error)
        ensures
            e.errors@ == other.errors@.push((input, Kind::Nom(kind))),
    {
        let mut other = other;
        other.errors.push((input, Kind::Nom(kind)));
        other
    }

    /// A diagnostic of one entry: character `c` was expected at `input`.
    pub fn from_char(input: usize, c: char) -> (e: Error)
        ensures
            e.errors@ == seq![(input, Kind::Char(c))],
    {
        let mut errors: Vec<(usize, Kind)> = Vec::new();
        errors.push((input, Kind::Char(c)));
        Error { errors }
    }

    /// `other` inside the context `ctx`, which began at `input`. The context
    /// goes on top; a topmost entry that only names an elementary rule gives
    /// way to it.
    pub fn add_context(input: usize, ctx: Message, other: Error) -> (e: Error)
        ensures
            e.errors@ == with_context(other.errors@, input, ctx),
    {
        let mut other = other;
        let n = other.errors.len();
        if n > 0 {
            if let Kind::Nom(_) = other.errors[n - 1].1 {
                other.errors.pop();
            }
        }
        other.errors.push((input, Kind::Context(ctx)));
        other
    }

    /// A diagnostic of one entry: the construct `ctx` was expected at `input`
    /// and elementary rule `kind` failed there.
    pub fn expected(input: usize, kind: Code, ctx: Message) -> (e: Error)
        ensures
            e.errors@ == seq![(input, Kind::Context(ctx))],
    {
        let e = Error::add_context(input, ctx, Error::from_error_kind(input, kind));
        assert(e.errors@ =~= seq![(input, Kind::Context(ctx))]);
        e
    }

    /// The trace of this diagnostic against `input`: for each entry, from the
    /// innermost outwards, the line it points into, a caret under its column
    /// and what was expected: the character, the words of the message of a
    /// context, or the rule. Positions behind the input count as its end.
    pub fn render(&self, input: &str) -> (text: String)
        ensures
            text@ == trace(input@, frames_of(printable(self.errors@, input@.len()))),
    {
        let len = input.unicode_len();
        let mut frames: Vec<(usize, Frame)> = Vec::new();
        let mut i: usize = 0;
        let ghost wanted = frames_of(printable(self.errors@, len as nat));
        while i < self.errors.len()
            invariant
                i <= self.errors.len(),
                len == input@.len(),
                wanted == frames_of(printable(self.errors@, len as nat)),
                frames.len() == i,
                frame_views(frames@) == wanted.take(i as int),
            decreases self.errors.len() - i,
        {
            let entry = self.errors[i];
            let (at, kind) = if entry.0 >= len {
                let kind = match entry.1 {
                    Kind::Char(_) => if len > 0 {
                        Kind::Context(Message::EndOfInput)
                    } else {
                        entry.1
                    },
                    _ => entry.1,
                };
                (len, kind)
            } else {
                entry
            };
            assert((at, kind) == shown(self.errors@[i as int], len as nat));
            let frame = kind.to_frame();
            let ghost before = frames@;
            frames.push((at, frame));
            proof {
                assert(printable(self.errors@, len as nat)[i as int] == (at, kind));
                assert(wanted[i as int] == (at, frame@));
                assert forall|j: int| 0 <= j < i implies frame_views(frames@)[j] == wanted[j] by {
                    assert(frames@[j] == before[j]);
                    assert(frame_views(before)[j] == wanted.take(i as int)[j]);
                }
            }
            i += 1;
            assert(frame_views(frames@) =~= wanted.take(i as int));
        }
        assert(frame_views(frames@) =~= wanted);
        nom_convert_error(input, &frames)
    }
}

/// The trace of `err` against `input`.
pub fn convert_error(input: &str, err: Error) -> (text: String)
    ensures
        text@ == trace(input@, frames_of(printable(err.errors@, input@.len()))),
{
    err.render(input)
}

} // verus!
