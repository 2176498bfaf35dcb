use vstd::prelude::*;
use vstd::string::*;

verus! {

/// A message shown to the user: what they said, or what the assistant replied.
#[derive(Clone, Debug)]
pub struct Payload {
    pub message: String,
}

impl Payload {
    pub fn new(message: String) -> (r: Payload)
        ensures
            r.message == message,
    {
        Payload { message }
    }
}

/// Guards the exclusive audio hardware: at most one utterance round trip runs at a time.
/// It lives in the session context rather than in a process-wide global.
#[derive(Clone, Copy, Debug, PartialEq, Eq, Structural)]
pub struct Coordinator {
    running: bool,
}

/// What an attempt to start a round trip does: whether it may start, and the guard after.
pub open spec fn begin_effect(c: Coordinator) -> (bool, Coordinator) {
    if c.is_running() {
        (false, c)
    } else {
        (true, Coordinator::running_guard())
    }
}

impl Coordinator {
    pub closed spec fn is_running(&self) -> bool {
        self.running
    }

    pub closed spec fn running_guard() -> Coordinator {
        Coordinator { running: true }
    }

    proof fn lemma_running_guard()
        ensures
            Coordinator::running_guard().is_running(),
    {
    }

    /// A guard with no round trip under way.
    pub fn new() -> (r: Coordinator)
        ensures
            !r.is_running(),
    {
        Coordinator { running: false }
    }

    pub fn is_running_now(&self) -> (r: bool)
        ensures
            r == self.is_running(),
    {
        self.running
    }

    /// Claims the hardware for a new round trip. Returns `false`, and changes nothing, when
    /// one is already under way.
    pub fn try_begin(&mut self) -> (r: bool)
        ensures
            (r, *final(self)) == begin_effect(*old(self)),
            final(self).is_running(),
    {
        proof {
            Coordinator::lemma_running_guard();
        }
        if self.running {
            false
        } else {
            self.running = true;
            true
        }
    }

    /// Releases the hardware once a round trip has ended, however it ended, so that the next
    /// user action can start one.
    pub fn finish(&mut self)
        ensures
            !final(self).is_running(),
    {
        self.running = false;
    }
}

/// Mutual exclusion: while a round trip is under way, an attempt to start a second one is
/// rejected and leaves the guard as it was, so no second pair of device sessions is opened.
pub proof fn lemma_second_round_trip_rejected(c: Coordinator)
    ensures
        begin_effect(begin_effect(c).1).0 == false,
        begin_effect(begin_effect(c).1).1 == begin_effect(c).1,
        !c.is_running() ==> begin_effect(c).0,
{
    Coordinator::lemma_running_guard();
}

/// The pieces left of `text` once every match of the regular expression `pattern` is cut
/// out, in order.
pub uninterp spec fn pattern_split(pattern: Seq<char>, text: Seq<char>) -> Seq<Seq<char>>;

/// Whether `pattern` is a regular expression that compiles.
pub uninterp spec fn pattern_compiles(pattern: Seq<char>) -> bool;

/// Relies on regex's `Regex::new` to compile `pattern`, which succeeds or fails on the
/// pattern alone, and on `Regex::split` to cut `text` at its matches. `None` when the
/// pattern does not compile.
#[verifier::external_body]
fn split_by_pattern(pattern: &str, text: &str) -> (r: Option<Vec<String>>)
    ensures
        r is Some <==> pattern_compiles(pattern@),
        r matches Some(pieces) ==> pieces@.len() == pattern_split(pattern@, text@).len() && (
        forall|i: int| 0 <= i < pieces@.len() ==> (#[trigger] pieces@[i])@ == pattern_split(
            pattern@,
            text@,
        )[i]),
{
    match regex::Regex::new(pattern) {
        Ok(re) => Some(re.split(text).map(|p| p.to_string()).collect()),
        Err(_) => None,
    }
}

/// Fenced code blocks: three backticks, at least one character, three backticks, matched
/// as short as possible.
pub const CODE_FENCE: &'static str = "`{3}[\\s\\S]+?`{3}";

/// `pieces` joined with `sep` between consecutive ones.
pub open spec fn joined(pieces: Seq<Seq<char>>, sep: Seq<char>) -> Seq<char>
    decreases pieces.len(),
{
    if pieces.len() == 0 {
        Seq::empty()
    } else if pieces.len() == 1 {
        pieces[0]
    } else {
        joined(pieces.drop_last(), sep) + sep + pieces.last()
    }
}

pub open spec fn pieces_view(v: Seq<String>) -> Seq<Seq<char>> {
    v.map_values(|s: String| s@)
}

/// The text to be spoken from the pieces of a reply that lie outside code blocks: each
/// piece on a line of its own.
pub fn speech_text_from_pieces(pieces: &Vec<String>) -> (r: String)
    ensures
        r@ == joined(pieces_view(pieces@), seq!['\n']),
{
    let mut out = String::new();
    let mut i: usize = 0;
    while i < pieces.len()
        invariant
            i <= pieces@.len(),
            out@ == joined(pieces_view(pieces@.take(i as int)), seq!['\n']),
        decreases pieces@.len() - i,
    {
        proof {
            assert(pieces_view(pieces@.take(i + 1)).drop_last() =~= pieces_view(
                pieces@.take(i as int),
            ));
            assert(pieces_view(pieces@.take(i + 1)).last() == pieces@[i as int]@);
        }
        if i > 0 {
            out.append("\n");
        }
        out.append(pieces[i].as_str());
        proof {
            if i == 0 {
                assert(out@ =~= pieces@[0]@);
            } else {
                assert(seq!['\n'] =~= "\n"@) by {
                    reveal_strlit("\n");
                }
            }
        }
        i = i + 1;
    }
    proof {
        assert(pieces@.take(pieces@.len() as int) =~= pieces@);
    }
    out
}

/// The part of an assistant reply worth speaking: the reply with its fenced code blocks
/// cut out, the remaining pieces on lines of their own. Should the pattern not compile,
/// the reply is spoken as it is.
pub fn speech_text(reply: &str) -> (r: String)
    ensures
        pattern_compiles(CODE_FENCE@) ==> r@ == joined(
            pattern_split(CODE_FENCE@, reply@),
            seq!['\n'],
        ),
        !pattern_compiles(CODE_FENCE@) ==> r@ == reply@,
{
    match split_by_pattern(CODE_FENCE, reply) {
        Some(pieces) => {
            let r = speech_text_from_pieces(&pieces);
            assert(pieces_view(pieces@) =~= pattern_split(CODE_FENCE@, reply@));
            r
        },
        None => String::from_str(reply),
    }
}

/// A character with the Unicode `White_Space` property, as `char::is_whitespace` decides it.
pub open spec fn is_whitespace(c: char) -> bool {
    ||| '\u{9}' <= c <= '\u{d}'
    ||| c == ' '
    ||| c == '\u{85}'
    ||| c == '\u{a0}'
    ||| c == '\u{1680}'
    ||| '\u{2000}' <= c <= '\u{200a}'
    ||| c == '\u{2028}'
    ||| c == '\u{2029}'
    ||| c == '\u{202f}'
    ||| c == '\u{205f}'
    ||| c == '\u{3000}'
}

/// Text made of whitespace alone, or empty.
pub open spec fn is_blank(s: Seq<char>) -> bool {
    forall|i: int| 0 <= i < s.len() ==> is_whitespace(#[trigger] s[i])
}

/// `t` is `s` from `start` to `end`, with only whitespace outside that stretch and none at
/// either end of it.
pub open spec fn trims_to(s: Seq<char>, t: Seq<char>, start: int, end: int) -> bool {
    &&& 0 <= start <= end <= s.len()
    &&& t == s.subrange(start, end)
    &&& forall|i: int| 0 <= i < start ==> is_whitespace(#[trigger] s[i])
    &&& forall|i: int| end <= i < s.len() ==> is_whitespace(#[trigger] s[i])
    &&& t.len() > 0 ==> !is_whitespace(t[0]) && !is_whitespace(t.last())
}

/// Relies on `str::trim`: the text with leading and trailing whitespace removed, that is
/// the stretch of `s` from its first to its last character that is not whitespace.
#[verifier::external_body]
fn trim(s: &str) -> (r: &str)
    ensures
        exists|start: int, end: int| trims_to(s@, r@, start, end),
{
    s.trim()
}

/// Whether a reply is spoken aloud: speech output must be permitted and the text must hold
/// more than whitespace.
pub fn should_speak(tts_permitted: bool, text: &str) -> (r: bool)
    ensures
        r == (tts_permitted && !is_blank(text@)),
{
    let t = trim(text);
    proof {
        let (start, end) = choose|start: int, end: int| trims_to(text@, t@, start, end);
        if t@.len() == 0 {
            assert forall|i: int| 0 <= i < text@.len() implies is_whitespace(#[trigger] text@[i]) by {
                if i >= start {
                    assert(i >= end);
                }
            }
        } else {
            assert(t@[0] == text@[start]);
            assert(!is_blank(text@));
        }
    }
    tts_permitted && !t.is_empty()
}

} // verus!
