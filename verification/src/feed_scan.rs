//! Which feeds the feed parser gets through. It fails on lengths and times with
//! numbers that it cannot hold, and it follows some elements as deep as they
//! nest, so a feed is looked over before it is handed on.

use vstd::prelude::*;

use crate::play_time::{can_be_read, play_time_reads};
use crate::text::{
    ascii_lower, chars_of, contains, contains_text, copy_range, occurs_at, occurs_here, starts_with,
    starts_with_text, to_ascii_lower,
};
use crate::xml_text::{
    codes, is_quotation, is_word, is_xml_blank, quotation, read_reference, reads, referred, times_can_be_read,
    times_read, xml_blank, Reference,
};

verus! {

/// How deep elements may nest: the parser counts them in sixteen bits.
pub const NESTING_LIMIT: usize = 65_000;

/// How deep those elements may nest that the parser follows by recursion.
pub const RECURSION_LIMIT: usize = 128;

/// Where in the markup a character stands.
#[derive(Debug, Clone, Copy, PartialEq, Eq, Structural)]
pub enum Place {
    /// Between tags.
    Text,
    /// In a reference in the text of a duration.
    Reference,
    /// Behind the bracket that opens a tag.
    Open,
    /// In the name of an opening tag.
    Name,
    /// Behind the name of an opening tag.
    Rest,
    /// In the name of a closing tag.
    Closing,
    /// Behind the name of a closing tag.
    ClosingRest,
    Instruction,
    /// At the start of a comment, of character data or of a document type.
    Bang,
    Comment,
    Data,
    /// In a document type, before what it declares.
    DocumentType,
    /// In a document type, between its declarations.
    Subset,
    SubsetInstruction,
    SubsetComment,
    /// In a declaration that ends at the first bracket.
    SubsetPlain,
    /// In a declaration that ends at the first bracket outside quotations.
    SubsetQuoted,
    /// In a document type, behind what it declares.
    SubsetEnd,
    /// Behind markup at which the parser gives up.
    Stopped,
}

/// What is known of a feed up to some character.
#[derive(Debug, Clone, Copy, PartialEq, Eq, Structural)]
pub struct Mark {
    pub place: Place,
    /// Where the name or the content at hand begins.
    pub from: usize,
    /// The quotation mark that is open.
    pub quote: Option<char>,
    /// How many elements are open.
    pub depth: usize,
    /// How many of those are followed by recursion.
    pub nested: usize,
    /// The text is the length of a recording.
    pub timed: bool,
    /// The tag opens an element with such a text.
    pub duration: bool,
    /// The tag opens an element that is followed by recursion.
    pub recursive: bool,
    /// The attributes of the tag may give times.
    pub gives_times: bool,
    /// The feed declares an encoding other than that of the text.
    pub foreign: bool,
    /// A character stood in it that shifts the meaning of others in some
    /// encodings.
    pub shifted: bool,
    /// A character beyond ASCII stood where a length or a time may be.
    pub wide: bool,
}

/// What is known of a feed, with the text of the duration at hand.
pub ghost struct ScanView {
    pub mark: Mark,
    pub said: Seq<u32>,
}

#[derive(Debug)]
pub struct Scan {
    pub mark: Mark,
    pub said: Vec<u32>,
}

impl View for Scan {
    type V = ScanView;

    open spec fn view(&self) -> ScanView {
        ScanView { mark: self.mark, said: self.said@ }
    }
}

/// The text begins like one in sixteen-bit characters.
pub open spec fn begins_wide(chars: Seq<char>) -> bool {
    starts_with(chars, "\0<\0?"@) || starts_with(chars, "<\0?\0"@)
}

pub open spec fn at_start(chars: Seq<char>) -> ScanView {
    ScanView {
        mark: Mark {
            place: Place::Text,
            from: 0,
            quote: None,
            depth: 0,
            nested: 0,
            timed: false,
            duration: false,
            recursive: false,
            gives_times: false,
            foreign: begins_wide(chars),
            shifted: false,
            wide: false,
        },
        said: Seq::empty(),
    }
}

/// The open quotation mark behind a character of a tag.
pub open spec fn quoting(quote: Option<char>, c: char) -> Option<char> {
    match quote {
        None => if quotation(c) {
            Some(c)
        } else {
            None
        },
        Some(open) => if c == open {
            None
        } else {
            quote
        },
    }
}

pub open spec fn moved(s: ScanView, place: Place) -> ScanView {
    ScanView { mark: Mark { place, ..s.mark }, ..s }
}

pub open spec fn moved_from(s: ScanView, place: Place, from: int) -> ScanView {
    ScanView { mark: Mark { place, from: from as usize, ..s.mark }, ..s }
}

/// The text of the duration at hand is given up.
pub open spec fn unheard(s: ScanView) -> ScanView {
    ScanView { mark: Mark { timed: false, ..s.mark }, said: Seq::empty() }
}

pub open spec fn stopped(s: ScanView) -> ScanView {
    moved(unheard(s), Place::Stopped)
}

/// Behind a character of a text.
pub open spec fn heard(s: ScanView, c: char) -> ScanView {
    if s.mark.timed {
        ScanView {
            mark: Mark { wide: s.mark.wide || c as u32 > 0x7f, ..s.mark },
            said: s.said.push(c as u32),
        }
    } else {
        s
    }
}

/// At the end of a tag the text before it is over. It fails where it is a
/// length that cannot be read.
pub open spec fn settled(s: ScanView) -> Option<ScanView> {
    if s.mark.timed && !play_time_reads(s.said) {
        None
    } else {
        Some(unheard(s))
    }
}

/// What the tag with the local name from `from` to `to` opens.
pub open spec fn named(chars: Seq<char>, s: ScanView, to: int) -> ScanView {
    let from = s.mark.from as int;
    ScanView {
        mark: Mark {
            duration: reads(chars, from, to, "duration"@),
            recursive: reads(chars, from, to, "category"@) || reads(chars, from, to, "content"@),
            gives_times: reads(chars, from, to, "text"@) || reads(chars, from, to, "thumbnail"@),
            from: to as usize,
            ..s.mark
        },
        ..s
    }
}

pub open spec fn beyond_ascii(c: Seq<char>) -> bool {
    exists|k: int| 0 <= k < c.len() && #[trigger] c[k] as u32 > 0x7f
}

/// Behind an opening tag that ends at `i`, with its attributes from where its
/// name ended.
#[verifier::opaque]
pub open spec fn opened(chars: Seq<char>, s: ScanView, i: int) -> Option<ScanView> {
    let closed = i > 0 && chars[i - 1] == '/';
    let from = s.mark.from as int;
    let end = if closed {
        i - 1
    } else {
        i
    };
    let looked_at = s.mark.gives_times && from <= end;
    let attributes = chars.subrange(from, end);
    match settled(s) {
        None => None,
        Some(over) => {
            let mark = Mark {
                place: Place::Text,
                quote: None,
                wide: s.mark.wide || (looked_at && beyond_ascii(attributes)),
                ..over.mark
            };
            if looked_at && !times_read(attributes, 0, Seq::empty()) {
                None
            } else if closed {
                Some(ScanView { mark, ..over })
            } else if mark.depth >= NESTING_LIMIT || (mark.recursive && mark.nested
                >= RECURSION_LIMIT) {
                None
            } else {
                Some(
                    ScanView {
                        mark: Mark {
                            depth: (mark.depth + 1) as usize,
                            nested: if mark.recursive {
                                (mark.nested + 1) as usize
                            } else {
                                mark.nested
                            },
                            timed: mark.duration,
                            ..mark
                        },
                        ..over
                    },
                )
            }
        },
    }
}

/// Behind a character of the name in an opening tag.
pub open spec fn in_name(chars: Seq<char>, s: ScanView, i: int) -> Option<ScanView> {
    let c = chars[i];
    if c == '>' && s.mark.quote is None {
        opened(chars, named(chars, s, i), i)
    } else if xml_blank(c) {
        Some(moved(named(chars, s, i), Place::Rest))
    } else {
        let quote = quoting(s.mark.quote, c);
        let from = if c == ':' {
            (i + 1) as usize
        } else {
            s.mark.from
        };
        Some(ScanView { mark: Mark { quote, from, ..s.mark }, ..s })
    }
}

/// One element fewer is open. The name of the closing tag ends at `to`.
pub open spec fn without_one(chars: Seq<char>, s: ScanView, to: int) -> ScanView {
    let from = s.mark.from as int;
    let recursive = reads(chars, from, to, "category"@) || reads(chars, from, to, "content"@);
    ScanView {
        mark: Mark {
            depth: if s.mark.depth > 0 {
                (s.mark.depth - 1) as usize
            } else {
                0
            },
            nested: if recursive && s.mark.nested > 0 {
                (s.mark.nested - 1) as usize
            } else {
                s.mark.nested
            },
            ..s.mark
        },
        ..s
    }
}

/// Behind a character of a closing tag.
#[verifier::opaque]
pub open spec fn in_closing(chars: Seq<char>, s: ScanView, i: int) -> Option<ScanView> {
    let c = chars[i];
    if c == '>' && s.mark.quote is None {
        let counted = if s.mark.place is Closing {
            without_one(chars, s, i)
        } else {
            s
        };
        match settled(counted) {
            None => None,
            Some(over) => Some(moved(over, Place::Text)),
        }
    } else if s.mark.place is Closing && xml_blank(c) {
        Some(moved(without_one(chars, s, i), Place::ClosingRest))
    } else {
        let quote = quoting(s.mark.quote, c);
        let from = if c == ':' {
            (i + 1) as usize
        } else {
            s.mark.from
        };
        Some(ScanView { mark: Mark { quote, from, ..s.mark }, ..s })
    }
}

/// Behind a character that follows the bracket of a tag.
#[verifier::opaque]
pub open spec fn entered(chars: Seq<char>, s: ScanView, i: int) -> Option<ScanView> {
    let c = chars[i];
    if c == '!' {
        Some(moved_from(s, Place::Bang, i + 1))
    } else if c == '?' {
        Some(moved_from(s, Place::Instruction, i + 1))
    } else {
        let plain = ScanView { mark: Mark { quote: None, ..s.mark }, ..s };
        if c == '/' {
            Some(moved_from(plain, Place::Closing, i + 1))
        } else {
            in_name(chars, moved_from(plain, Place::Name, i), i)
        }
    }
}

/// The characters without blanks, in small letters.
pub open spec fn squeezed(c: Seq<char>) -> Seq<char> {
    ascii_lower(c.filter(|x: char| !xml_blank(x)))
}

/// The declaration of a feed leaves the encoding of the text as it is: it names
/// none, or that one and no other.
pub open spec fn keeps_encoding(c: Seq<char>) -> bool {
    let t = squeezed(c);
    !contains(t, "encoding"@) || (exists|i: int|
        #[trigger] names_encoding(t, i) && !contains(t.take(i), "encoding"@) && !contains(
            t.skip(i + 1),
            "encoding"@,
        ))
}

pub open spec fn names_encoding(t: Seq<char>, i: int) -> bool {
    occurs_at(t, "encoding=\"utf-8\""@, i) || occurs_at(t, "encoding='utf-8'"@, i) || occurs_at(
        t,
        "encoding=\"utf8\""@,
        i,
    ) || occurs_at(t, "encoding='utf8'"@, i)
}

/// Behind an instruction with its content from `from` to `to`.
#[verifier::opaque]
pub open spec fn instructed(chars: Seq<char>, s: ScanView, to: int) -> ScanView {
    let from = s.mark.from as int;
    if from > to {
        stopped(s)
    } else {
        let content = chars.subrange(from, to);
        let declares = starts_with(content, "xml"@) && (content.len() == 3 || xml_blank(
            content[3],
        ));
        ScanView {
            mark: Mark {
                place: Place::Text,
                foreign: s.mark.foreign || (declares && !keeps_encoding(content)),
                ..s.mark
            },
            ..s
        }
    }
}

/// Behind a character at the start of a comment, of character data or of a
/// document type.
#[verifier::opaque]
pub open spec fn declared(chars: Seq<char>, s: ScanView, i: int) -> ScanView {
    let c = chars[i];
    let from = s.mark.from as int;
    if from >= i {
        if c == '-' || c == '[' || c == 'D' || c == 'd' {
            s
        } else {
            stopped(s)
        }
    } else if chars[from] == '-' {
        if c == '-' {
            moved_from(s, Place::Comment, i + 1)
        } else {
            stopped(s)
        }
    } else if i - from < 6 {
        s
    } else if i - from > 6 {
        stopped(s)
    } else if reads(chars, from, i + 1, "[CDATA["@) {
        moved(s, Place::Data)
    } else if ascii_lower(chars.subrange(from, i + 1)) == "doctype"@ {
        ScanView { mark: Mark { place: Place::DocumentType, quote: None, ..s.mark }, ..s }
    } else {
        stopped(s)
    }
}

/// The characters before `i` end a comment that began at `from`.
pub open spec fn ends_comment(chars: Seq<char>, from: int, i: int) -> bool {
    i >= from + 2 && i >= 2 && chars[i - 1] == '-' && chars[i - 2] == '-'
}

/// Behind a character of a document type.
#[verifier::opaque]
pub open spec fn in_document_type(chars: Seq<char>, s: ScanView, i: int) -> ScanView {
    let c = chars[i];
    let from = s.mark.from as int;
    let quoted = ScanView { mark: Mark { quote: quoting(s.mark.quote, c), ..s.mark }, ..s };
    match s.mark.place {
        Place::DocumentType => if s.mark.quote is None && c == '[' {
            moved(s, Place::Subset)
        } else if s.mark.quote is None && c == '>' {
            moved(s, Place::Text)
        } else {
            quoted
        },
        Place::Subset => if c == ']' {
            moved(s, Place::SubsetEnd)
        } else if c != '<' {
            s
        } else if occurs_at(chars, "?"@, i + 1) {
            moved_from(s, Place::SubsetInstruction, i + 2)
        } else if occurs_at(chars, "!--"@, i + 1) {
            moved_from(s, Place::SubsetComment, i + 4)
        } else if occurs_at(chars, "!ENTITY"@, i + 1) || occurs_at(chars, "!ATTLIST"@, i + 1)
            || occurs_at(chars, "!NOTATION"@, i + 1) {
            ScanView { mark: Mark { place: Place::SubsetQuoted, quote: None, ..s.mark }, ..s }
        } else {
            moved(s, Place::SubsetPlain)
        },
        Place::SubsetInstruction => if c == '>' && i >= from + 1 && i >= 1 && chars[i - 1] == '?' {
            moved(s, Place::Subset)
        } else {
            s
        },
        Place::SubsetComment => if c == '>' && ends_comment(chars, from, i) {
            moved(s, Place::Subset)
        } else {
            s
        },
        Place::SubsetPlain => if c == '>' {
            moved(s, Place::Subset)
        } else {
            s
        },
        Place::SubsetQuoted => if c == '>' && s.mark.quote is None {
            moved(s, Place::Subset)
        } else {
            quoted
        },
        _ => if c == '>' {
            moved(s, Place::Text)
        } else {
            s
        },
    }
}

/// Behind a character of a reference in the text of a duration. A name that is
/// not known stays as it stands; a reference that does not end or is malformed
/// is an error, with which the text is lost.
#[verifier::opaque]
pub open spec fn in_reference(chars: Seq<char>, s: ScanView, i: int) -> ScanView {
    let c = chars[i];
    let from = s.mark.from as int;
    if c == '<' {
        moved(unheard(s), Place::Open)
    } else if c == '&' {
        moved(unheard(s), Place::Text)
    } else if c != ';' || from > i {
        ScanView { mark: Mark { wide: s.mark.wide || c as u32 > 0x7f, ..s.mark }, ..s }
    } else {
        resolved(chars, s, from, i)
    }
}

/// Behind a reference with its name from `from` to `i`.
pub open spec fn resolved(chars: Seq<char>, s: ScanView, from: int, i: int) -> ScanView {
    match referred(chars, from, i) {
        Reference::Character(code) => moved(
            ScanView { said: s.said.push(code), ..s },
            Place::Text,
        ),
        Reference::Unknown => moved(
            ScanView {
                said: s.said.push(0x26) + codes(chars.subrange(from, i + 1)),
                ..s
            },
            Place::Text,
        ),
        Reference::Malformed => moved(unheard(s), Place::Text),
    }
}

/// Behind a character between tags.
pub open spec fn in_text(s: ScanView, c: char, i: int) -> ScanView {
    if c == '<' {
        moved(s, Place::Open)
    } else if c == '&' && s.mark.timed {
        moved_from(s, Place::Reference, i + 1)
    } else {
        heard(s, c)
    }
}

/// Behind a character that follows the name in an opening tag.
pub open spec fn in_rest(chars: Seq<char>, s: ScanView, i: int) -> Option<ScanView> {
    let c = chars[i];
    if c == '>' && s.mark.quote is None {
        opened(chars, s, i)
    } else {
        Some(ScanView { mark: Mark { quote: quoting(s.mark.quote, c), ..s.mark }, ..s })
    }
}

/// Behind a character of an instruction or a comment.
pub open spec fn in_aside(chars: Seq<char>, s: ScanView, i: int) -> ScanView {
    if chars[i] != '>' {
        s
    } else if s.mark.place is Comment {
        if ends_comment(chars, s.mark.from as int, i) {
            moved(s, Place::Text)
        } else {
            s
        }
    } else if i >= 1 && chars[i - 1] == '?' {
        instructed(chars, s, i - 1)
    } else {
        s
    }
}

/// Behind a character of character data.
pub open spec fn in_data(chars: Seq<char>, s: ScanView, i: int) -> ScanView {
    let c = chars[i];
    if c == '>' && i >= 2 && chars[i - 1] == ']' && chars[i - 2] == ']' {
        data_ended(s)
    } else {
        heard(s, c)
    }
}

/// What is known of the character itself.
pub open spec fn noted(s: ScanView, c: char) -> ScanView {
    ScanView {
        mark: Mark { shifted: s.mark.shifted || c == '\0' || c == '\u{1b}', ..s.mark },
        ..s
    }
}

/// What is known behind the character at `i`, outside tags.
pub open spec fn plain_step(chars: Seq<char>, s: ScanView, i: int) -> ScanView {
    match s.mark.place {
        Place::Text => in_text(s, chars[i], i),
        Place::Reference => in_reference(chars, s, i),
        Place::Instruction | Place::Comment => in_aside(chars, s, i),
        Place::Bang => declared(chars, s, i),
        Place::Data => in_data(chars, s, i),
        _ => in_document_type(chars, s, i),
    }
}

/// What is known behind the character at `i`; `None` where the parser would
/// not get through.
pub open spec fn step(chars: Seq<char>, before: ScanView, i: int) -> Option<ScanView> {
    let s = noted(before, chars[i]);
    match before.mark.place {
        Place::Stopped => Some(before),
        Place::Open => entered(chars, s, i),
        Place::Name => in_name(chars, s, i),
        Place::Rest => in_rest(chars, s, i),
        Place::Closing | Place::ClosingRest => in_closing(chars, s, i),
        _ => Some(plain_step(chars, s, i)),
    }
}

/// Behind character data. Its last two brackets were none of its text.
pub open spec fn data_ended(s: ScanView) -> ScanView {
    moved(
        if s.mark.timed && s.said.len() >= 2 {
            ScanView { said: s.said.take(s.said.len() - 2), ..s }
        } else {
            s
        },
        Place::Text,
    )
}

/// What is known of the first `n` characters.
pub open spec fn scanned(chars: Seq<char>, n: int) -> Option<ScanView>
    decreases n,
{
    if n <= 0 {
        Some(at_start(chars))
    } else {
        match scanned(chars, n - 1) {
            Some(s) => step(chars, s, n - 1),
            None => None,
        }
    }
}

/// The text begins like JSON rather than markup.
pub open spec fn begins_json(chars: Seq<char>) -> bool
    decreases chars.len(),
{
    if chars.len() == 0 {
        false
    } else if chars[0] == '{' || chars[0] == '<' {
        chars[0] == '{'
    } else {
        begins_json(chars.skip(1))
    }
}

/// At the end of the feed: a duration whose text ends with it can be read, and
/// no other encoding gives the characters another meaning.
pub open spec fn ended(s: ScanView) -> bool {
    &&& s.mark.place is Text && s.mark.timed ==> play_time_reads(s.said)
    &&& s.mark.foreign ==> !s.mark.shifted && !s.mark.wide
}

/// A feed that the parser gets through: JSON, or markup in which every
/// `duration`, and every `start`, `end` and `time` of a `text` or a `thumbnail`,
/// can be read, and which nests no deeper than the limits.
pub open spec fn parser_returns_on(chars: Seq<char>) -> bool {
    begins_json(chars) || (scanned(chars, chars.len() as int) matches Some(s) && ended(s))
}

fn open_quote(quote: Option<char>, c: char) -> (r: Option<char>)
    ensures
        r == quoting(quote, c),
{
    match quote {
        None => if is_quotation(c) {
            Some(c)
        } else {
            None
        },
        Some(open) => if c == open {
            None
        } else {
            Some(open)
        },
    }
}

fn goes_beyond_ascii(c: &[char]) -> (r: bool)
    ensures
        r == beyond_ascii(c@),
{
    let mut i: usize = 0;
    while i < c.len()
        invariant
            i <= c.len(),
            forall|k: int| 0 <= k < i ==> #[trigger] c@[k] as u32 <= 0x7f,
        decreases c.len() - i,
    {
        if c[i] as u32 > 0x7f {
            return true;
        }
        i += 1;
    }
    false
}

fn squeeze(c: &[char]) -> (r: Vec<char>)
    ensures
        r@ == squeezed(c@),
{
    let ghost keep = |x: char| !xml_blank(x);
    let mut filled: Vec<char> = Vec::new();
    let mut i: usize = 0;
    proof {
        reveal(Seq::filter);
    }
    while i < c.len()
        invariant
            i <= c.len(),
            keep == (|x: char| !xml_blank(x)),
            filled@ == c@.take(i as int).filter(keep),
        decreases c.len() - i,
    {
        proof {
            reveal(Seq::filter);
            assert(c@.take(i + 1).drop_last() =~= c@.take(i as int));
        }
        if !is_xml_blank(c[i]) {
            filled.push(c[i]);
        }
        i += 1;
    }
    proof {
        assert(c@.take(c@.len() as int) =~= c@);
    }
    to_ascii_lower(&filled)
}

fn leaves_encoding(c: &[char]) -> (r: bool)
    ensures
        r == keeps_encoding(c@),
{
    let t = squeeze(c);
    if !contains_text(&t, "encoding") {
        return true;
    }
    let double = chars_of("encoding=\"utf-8\"");
    let single = chars_of("encoding='utf-8'");
    let short_double = chars_of("encoding=\"utf8\"");
    let short_single = chars_of("encoding='utf8'");
    let mut i: usize = 0;
    while i < t.len()
        invariant
            i <= t.len(),
            t@ == squeezed(c@),
            double@ == "encoding=\"utf-8\""@,
            single@ == "encoding='utf-8'"@,
            short_double@ == "encoding=\"utf8\""@,
            short_single@ == "encoding='utf8'"@,
            contains(t@, "encoding"@),
            forall|k: int|
                0 <= k < i ==> !(#[trigger] names_encoding(t@, k) && !contains(
                    t@.take(k),
                    "encoding"@,
                ) && !contains(t@.skip(k + 1), "encoding"@)),
        decreases t.len() - i,
    {
        if occurs_here(&t, &double, i) || occurs_here(&t, &single, i) || occurs_here(
            &t,
            &short_double,
            i,
        ) || occurs_here(&t, &short_single, i) {
            let before = copy_range(&t, 0, i);
            let behind = copy_range(&t, i + 1, t.len());
            proof {
                assert(before@ =~= t@.take(i as int));
                assert(behind@ =~= t@.skip(i + 1));
                assert(names_encoding(t@, i as int));
            }
            if !contains_text(&before, "encoding") && !contains_text(&behind, "encoding") {
                return true;
            }
        }
        i += 1;
    }
    proof {
        reveal_strlit("encoding=\"utf-8\"");
        reveal_strlit("encoding='utf-8'");
        reveal_strlit("encoding=\"utf8\"");
        reveal_strlit("encoding='utf8'");
        assert forall|k: int| #[trigger] names_encoding(t@, k) implies 0 <= k < t@.len() by {}
    }
    false
}

impl Scan {
    fn give_up_text(&mut self)
        ensures
            final(self)@ == unheard(old(self)@),
    {
        self.mark.timed = false;
        self.said = Vec::new();
        proof {
            assert(self.said@ =~= Seq::<u32>::empty());
        }
    }

    fn stop(&mut self)
        ensures
            final(self)@ == stopped(old(self)@),
    {
        self.give_up_text();
        self.mark.place = Place::Stopped;
    }

    fn hear(&mut self, c: char)
        ensures
            final(self)@ == heard(old(self)@, c),
    {
        if self.mark.timed {
            self.mark.wide = self.mark.wide || c as u32 > 0x7f;
            self.said.push(c as u32);
        }
    }

    /// Ends the text before a tag. Tells whether it could be read.
    fn settle(&mut self) -> (r: bool)
        ensures
            match settled(old(self)@) {
                Some(over) => r && final(self)@ == over,
                None => !r,
            },
    {
        if self.mark.timed && !can_be_read(&self.said) {
            return false;
        }
        self.give_up_text();
        true
    }

    fn take_name(&mut self, chars: &[char], to: usize)
        ensures
            final(self)@ == named(chars@, old(self)@, to as int),
    {
        let from = self.mark.from;
        let duration = is_word(chars, from, to, "duration");
        let recursive = is_word(chars, from, to, "category") || is_word(
            chars,
            from,
            to,
            "content",
        );
        let gives_times = is_word(chars, from, to, "text") || is_word(
            chars,
            from,
            to,
            "thumbnail",
        );
        self.mark = Mark { duration, recursive, gives_times, from: to, ..self.mark };
    }

    fn end_opening(&mut self, chars: &[char], i: usize) -> (r: bool)
        requires
            i < chars.len(),
        ensures
            match opened(chars@, old(self)@, i as int) {
                Some(next) => r && final(self)@ == next,
                None => !r,
            },
    {
        proof {
            reveal(opened);
        }
        let closed: bool = i > 0 && chars[i - 1] == '/';
        let from = self.mark.from;
        let end: usize = if closed {
            i - 1
        } else {
            i
        };
        if !self.settle() {
            return false;
        }
        if self.mark.gives_times && from <= end {
            let attributes = copy_range(chars, from, end);
            if !times_can_be_read(&attributes) {
                return false;
            }
            self.mark.wide = self.mark.wide || goes_beyond_ascii(&attributes);
        }
        self.mark.place = Place::Text;
        self.mark.quote = None;
        if closed {
            return true;
        }
        if self.mark.depth >= NESTING_LIMIT || (self.mark.recursive && self.mark.nested
            >= RECURSION_LIMIT) {
            return false;
        }
        self.mark.depth = self.mark.depth + 1;
        if self.mark.recursive {
            self.mark.nested = self.mark.nested + 1;
        }
        self.mark.timed = self.mark.duration;
        true
    }

    fn read_name(&mut self, chars: &[char], i: usize) -> (r: bool)
        requires
            i < chars.len(),
        ensures
            match in_name(chars@, old(self)@, i as int) {
                Some(next) => r && final(self)@ == next,
                None => !r,
            },
    {
        let c = chars[i];
        if c == '>' && self.mark.quote.is_none() {
            self.take_name(chars, i);
            self.end_opening(chars, i)
        } else if is_xml_blank(c) {
            self.take_name(chars, i);
            self.mark.place = Place::Rest;
            true
        } else {
            self.mark.quote = open_quote(self.mark.quote, c);
            if c == ':' {
                self.mark.from = i + 1;
            }
            true
        }
    }

    fn count_closing(&mut self, chars: &[char], to: usize)
        ensures
            final(self)@ == without_one(chars@, old(self)@, to as int),
    {
        let from = self.mark.from;
        if self.mark.depth > 0 {
            self.mark.depth = self.mark.depth - 1;
        }
        if self.mark.nested > 0 && (is_word(chars, from, to, "category") || is_word(
            chars,
            from,
            to,
            "content",
        )) {
            self.mark.nested = self.mark.nested - 1;
        }
    }

    fn read_closing(&mut self, chars: &[char], i: usize) -> (r: bool)
        requires
            i < chars.len(),
        ensures
            match in_closing(chars@, old(self)@, i as int) {
                Some(next) => r && final(self)@ == next,
                None => !r,
            },
    {
        proof {
            reveal(in_closing);
        }
        let c = chars[i];
        let naming: bool = self.mark.place == Place::Closing;
        if c == '>' && self.mark.quote.is_none() {
            if naming {
                self.count_closing(chars, i);
            }
            if !self.settle() {
                return false;
            }
            self.mark.place = Place::Text;
            true
        } else if naming && is_xml_blank(c) {
            self.count_closing(chars, i);
            self.mark.place = Place::ClosingRest;
            true
        } else {
            self.mark.quote = open_quote(self.mark.quote, c);
            if c == ':' {
                self.mark.from = i + 1;
            }
            true
        }
    }

    fn enter(&mut self, chars: &[char], i: usize) -> (r: bool)
        requires
            i < chars.len(),
        ensures
            match entered(chars@, old(self)@, i as int) {
                Some(next) => r && final(self)@ == next,
                None => !r,
            },
    {
        proof {
            reveal(entered);
        }
        let c = chars[i];
        if c == '!' {
            self.mark = Mark { place: Place::Bang, from: i + 1, ..self.mark };
            true
        } else if c == '?' {
            self.mark = Mark { place: Place::Instruction, from: i + 1, ..self.mark };
            true
        } else if c == '/' {
            self.mark = Mark { place: Place::Closing, from: i + 1, quote: None, ..self.mark };
            true
        } else {
            self.mark = Mark { place: Place::Name, from: i, quote: None, ..self.mark };
            self.read_name(chars, i)
        }
    }

    fn end_instruction(&mut self, chars: &[char], to: usize)
        requires
            to <= chars.len(),
        ensures
            final(self)@ == instructed(chars@, old(self)@, to as int),
    {
        proof {
            reveal(instructed);
        }
        let from = self.mark.from;
        if from > to {
            self.stop();
            return ;
        }
        let content = copy_range(chars, from, to);
        self.mark.place = Place::Text;
        if starts_with_text(&content, "xml") && (content.len() == 3 || (content.len() > 3
            && is_xml_blank(content[3]))) && !leaves_encoding(&content) {
            self.mark.foreign = true;
        }
        proof {
            reveal_strlit("xml");
        }
    }

    fn declare(&mut self, chars: &[char], i: usize)
        requires
            i < chars.len(),
        ensures
            final(self)@ == declared(chars@, old(self)@, i as int),
    {
        proof {
            reveal(declared);
        }
        let c = chars[i];
        let from = self.mark.from;
        if from >= i {
            if !(c == '-' || c == '[' || c == 'D' || c == 'd') {
                self.stop();
            }
        } else if chars[from] == '-' {
            if c == '-' {
                self.mark = Mark { place: Place::Comment, from: i + 1, ..self.mark };
            } else {
                self.stop();
            }
        } else if i - from < 6 {
        } else if i - from > 6 {
            self.stop();
        } else if is_word(chars, from, i + 1, "[CDATA[") {
            self.move_to(Place::Data);
        } else {
            let word = to_ascii_lower(&copy_range(chars, from, i + 1));
            proof {
                assert(word@.subrange(0, word@.len() as int) =~= word@);
            }
            if is_word(&word, 0, word.len(), "doctype") {
                self.mark = Mark { place: Place::DocumentType, quote: None, ..self.mark };
            } else {
                self.stop();
            }
        }
    }

    fn read_document_type(&mut self, chars: &[char], i: usize)
        requires
            i < chars.len(),
        ensures
            final(self)@ == in_document_type(chars@, old(self)@, i as int),
    {
        proof {
            reveal(in_document_type);
        }
        let c = chars[i];
        let from = self.mark.from;
        match self.mark.place {
            Place::DocumentType => if self.mark.quote.is_none() && c == '[' {
                self.move_to(Place::Subset);
            } else if self.mark.quote.is_none() && c == '>' {
                self.move_to(Place::Text);
            } else {
                self.mark = Mark { quote: open_quote(self.mark.quote, c), ..self.mark };
            },
            Place::Subset => if c == ']' {
                self.move_to(Place::SubsetEnd);
            } else if c != '<' {
            } else if occurs_here(chars, &chars_of("?"), i + 1) {
                proof {
                    reveal_strlit("?");
                }
                self.mark = Mark { place: Place::SubsetInstruction, from: i + 2, ..self.mark };
            } else if occurs_here(chars, &chars_of("!--"), i + 1) {
                proof {
                    reveal_strlit("!--");
                }
                self.mark = Mark { place: Place::SubsetComment, from: i + 4, ..self.mark };
            } else if occurs_here(chars, &chars_of("!ENTITY"), i + 1) || occurs_here(
                chars,
                &chars_of("!ATTLIST"),
                i + 1,
            ) || occurs_here(chars, &chars_of("!NOTATION"), i + 1) {
                self.mark = Mark { place: Place::SubsetQuoted, quote: None, ..self.mark };
            } else {
                self.move_to(Place::SubsetPlain);
            },
            Place::SubsetInstruction => if c == '>' && i >= 1 && i - 1 >= from && chars[i - 1]
                == '?' {
                self.move_to(Place::Subset);
            },
            Place::SubsetComment => if c == '>' && is_comment_end(chars, from, i) {
                self.move_to(Place::Subset);
            },
            Place::SubsetPlain => if c == '>' {
                self.move_to(Place::Subset);
            },
            Place::SubsetQuoted => if c == '>' && self.mark.quote.is_none() {
                self.move_to(Place::Subset);
            } else {
                self.mark = Mark { quote: open_quote(self.mark.quote, c), ..self.mark };
            },
            _ => if c == '>' {
                self.move_to(Place::Text);
            },
        }
    }

    fn end_reference(&mut self, chars: &[char], i: usize)
        requires
            i < chars.len(),
        ensures
            final(self)@ == in_reference(chars@, old(self)@, i as int),
    {
        let c = chars[i];
        let from = self.mark.from;
        if c == '<' || c == '&' {
            self.break_off(c);
        } else if c != ';' || from > i {
            self.mark = Mark { wide: self.mark.wide || c as u32 > 0x7f, ..self.mark };
        } else {
            self.resolve(chars, from, i);
        }
        proof {
            reveal(in_reference);
        }
    }

    fn break_off(&mut self, c: char)
        ensures
            final(self)@ == moved(
                unheard(old(self)@),
                if c == '<' {
                    Place::Open
                } else {
                    Place::Text
                },
            ),
    {
        self.give_up_text();
        let place = if c == '<' {
            Place::Open
        } else {
            Place::Text
        };
        self.mark = Mark { place, ..self.mark };
    }

    fn resolve(&mut self, chars: &[char], from: usize, i: usize)
        requires
            from <= i < chars.len(),
        ensures
            final(self)@ == resolved(chars@, old(self)@, from as int, i as int),
    {
        let meaning = read_reference(chars, from, i);
        if let Reference::Character(code) = meaning {
            self.say(code);
        } else if meaning == Reference::Unknown {
            self.hear_name(chars, from, i);
        } else {
            self.give_up_text();
        }
        self.move_to(Place::Text);
    }

    fn say(&mut self, code: u32)
        ensures
            final(self)@ == (ScanView { said: old(self)@.said.push(code), ..old(self)@ }),
    {
        self.said.push(code);
    }

    fn move_to(&mut self, place: Place)
        ensures
            final(self)@ == moved(old(self)@, place),
    {
        self.mark = Mark { place, ..self.mark };
    }

    /// A reference that is not known stays as it stands.
    fn hear_name(&mut self, chars: &[char], from: usize, to: usize)
        requires
            from <= to < chars.len(),
        ensures
            final(self)@ == (ScanView {
                said: old(self)@.said.push(0x26) + codes(
                    chars@.subrange(from as int, to + 1),
                ),
                ..old(self)@
            }),
    {
        self.said.push(0x26);
        let ghost start = self.said@;
        let mut k: usize = from;
        proof {
            assert(start + codes(chars@.subrange(from as int, from as int)) =~= start);
        }
        while k <= to
            invariant
                from <= k <= to + 1,
                to < chars.len(),
                self.mark == old(self).mark,
                self.said@ == start + codes(chars@.subrange(from as int, k as int)),
            decreases to + 1 - k,
        {
            self.said.push(chars[k] as u32);
            k += 1;
            proof {
                assert(self.said@ =~= start + codes(chars@.subrange(from as int, k as int)));
            }
        }
    }

    fn end_data(&mut self)
        ensures
            final(self)@ == data_ended(old(self)@),
    {
        if self.mark.timed && self.said.len() >= 2 {
            let _ = self.said.pop();
            let _ = self.said.pop();
            proof {
                assert(self.said@ =~= old(self).said@.take(old(self).said@.len() - 2));
            }
        }
        self.mark.place = Place::Text;
    }

    fn note(&mut self, c: char)
        ensures
            final(self)@ == noted(old(self)@, c),
    {
        let shifted: bool = self.mark.shifted || c == '\0' || c == '\u{1b}';
        self.mark = Mark { shifted, ..self.mark };
    }

    fn read_text(&mut self, c: char, i: usize)
        requires
            i < usize::MAX,
        ensures
            final(self)@ == in_text(old(self)@, c, i as int),
    {
        if c == '<' {
            self.move_to(Place::Open);
        } else if c == '&' && self.mark.timed {
            self.mark = Mark { place: Place::Reference, from: i + 1, ..self.mark };
        } else {
            self.hear(c);
        }
    }

    fn read_rest(&mut self, chars: &[char], i: usize) -> (r: bool)
        requires
            i < chars.len(),
        ensures
            match in_rest(chars@, old(self)@, i as int) {
                Some(next) => r && final(self)@ == next,
                None => !r,
            },
    {
        let c = chars[i];
        if c == '>' && self.mark.quote.is_none() {
            self.end_opening(chars, i)
        } else {
            self.mark = Mark { quote: open_quote(self.mark.quote, c), ..self.mark };
            true
        }
    }

    fn read_aside(&mut self, chars: &[char], i: usize)
        requires
            i < chars.len(),
        ensures
            final(self)@ == in_aside(chars@, old(self)@, i as int),
    {
        if chars[i] != '>' {
            return ;
        }
        if self.mark.place == Place::Comment {
            if is_comment_end(chars, self.mark.from, i) {
                self.move_to(Place::Text);
            }
        } else if i >= 1 && chars[i - 1] == '?' {
            self.end_instruction(chars, i - 1);
        }
    }

    fn read_data(&mut self, chars: &[char], i: usize)
        requires
            i < chars.len(),
        ensures
            final(self)@ == in_data(chars@, old(self)@, i as int),
    {
        if chars[i] == '>' && i >= 2 && chars[i - 1] == ']' && chars[i - 2] == ']' {
            self.end_data();
        } else {
            self.hear(chars[i]);
        }
    }

    /// Takes in the character at `i`. Tells whether the parser would get
    /// through so far.
    fn take(&mut self, chars: &[char], i: usize) -> (r: bool)
        requires
            i < chars.len(),
        ensures
            match step(chars@, old(self)@, i as int) {
                Some(next) => r && final(self)@ == next,
                None => !r,
            },
    {
        let place = self.mark.place;
        if place == Place::Stopped {
            return true;
        }
        self.note(chars[i]);
        if place == Place::Open {
            return self.enter(chars, i);
        }
        if place == Place::Name {
            return self.read_name(chars, i);
        }
        if place == Place::Rest {
            return self.read_rest(chars, i);
        }
        if place == Place::Closing || place == Place::ClosingRest {
            return self.read_closing(chars, i);
        }
        self.take_plain(chars, i);
        true
    }

    fn take_plain(&mut self, chars: &[char], i: usize)
        requires
            i < chars.len(),
            !(old(self).mark.place is Open || old(self).mark.place is Name
                || old(self).mark.place is Rest || old(self).mark.place is Closing
                || old(self).mark.place is ClosingRest || old(self).mark.place is Stopped),
        ensures
            final(self)@ == plain_step(chars@, old(self)@, i as int),
    {
        match self.mark.place {
            Place::Text => self.read_text(chars[i], i),
            Place::Reference => self.end_reference(chars, i),
            Place::Instruction | Place::Comment => self.read_aside(chars, i),
            Place::Bang => self.declare(chars, i),
            Place::Data => self.read_data(chars, i),
            _ => self.read_document_type(chars, i),
        }
    }
}

fn is_comment_end(chars: &[char], from: usize, i: usize) -> (r: bool)
    requires
        i < chars.len(),
    ensures
        r == ends_comment(chars@, from as int, i as int),
{
    i >= 2 && i - 2 >= from && chars[i - 1] == '-' && chars[i - 2] == '-'
}

fn looks_like_json(chars: &[char]) -> (r: bool)
    ensures
        r == begins_json(chars@),
{
    let mut i: usize = 0;
    proof {
        assert(chars@.skip(0) =~= chars@);
    }
    while i < chars.len()
        invariant
            i <= chars.len(),
            begins_json(chars@) == begins_json(chars@.skip(i as int)),
        decreases chars.len() - i,
    {
        proof {
            assert(chars@.skip(i as int).skip(1) =~= chars@.skip(i + 1));
        }
        if chars[i] == '{' {
            return true;
        }
        if chars[i] == '<' {
            return false;
        }
        i += 1;
    }
    false
}

proof fn lemma_refused_stays_refused(chars: Seq<char>, n: int, m: int)
    requires
        scanned(chars, n) is None,
        n <= m,
    ensures
        scanned(chars, m) is None,
    decreases m - n,
{
    if n < m {
        lemma_refused_stays_refused(chars, n, m - 1);
    }
}

/// Whether a feed may be handed to the parser.
pub fn can_be_parsed(text: &str) -> (r: bool)
    ensures
        r == parser_returns_on(text@),
{
    let chars = chars_of(text);
    if looks_like_json(&chars) {
        return true;
    }
    let foreign: bool = starts_with_text(&chars, "\0<\0?") || starts_with_text(&chars, "<\0?\0");
    let mut scan = Scan {
        mark: Mark {
            place: Place::Text,
            from: 0,
            quote: None,
            depth: 0,
            nested: 0,
            timed: false,
            duration: false,
            recursive: false,
            gives_times: false,
            foreign,
            shifted: false,
            wide: false,
        },
        said: Vec::new(),
    };
    proof {
        assert(scan.said@ =~= Seq::<u32>::empty());
    }
    let mut i: usize = 0;
    while i < chars.len()
        invariant
            i <= chars.len(),
            chars@ == text@,
            !begins_json(chars@),
            scanned(chars@, i as int) == Some(scan@),
        decreases chars.len() - i,
    {
        let passed = scan.take(&chars, i);
        if !passed {
            proof {
                lemma_refused_stays_refused(chars@, i + 1, chars@.len() as int);
            }
            return false;
        }
        i += 1;
    }
    if scan.mark.foreign && (scan.mark.shifted || scan.mark.wide) {
        return false;
    }
    !(scan.mark.place == Place::Text && scan.mark.timed) || can_be_read(&scan.said)
}

// ---- which feeds are read -------------------------------------------------------------

/// Nothing was met that gives a length or a time, is followed by recursion or
/// shifts the meaning of characters.
pub open spec fn quiet(s: ScanView, n: int) -> bool {
    &&& !s.mark.timed && !s.mark.duration && !s.mark.recursive && !s.mark.gives_times
    &&& s.mark.depth <= n
    &&& !s.mark.shifted && !s.mark.wide && !(s.mark.place is Reference)
}

/// The feed speaks of no element that gives a length or a time or is followed
/// by recursion, and holds no character that shifts the meaning of others.
pub open spec fn plain_feed(chars: Seq<char>) -> bool {
    &&& !contains(chars, "duration"@) && !contains(chars, "text"@) && !contains(
        chars,
        "thumbnail"@,
    )
    &&& !contains(chars, "category"@) && !contains(chars, "content"@)
    &&& forall|k: int| 0 <= k < chars.len() ==> #[trigger] chars[k] != '\0' && chars[k] != '\u{1b}'
}

proof fn lemma_plain_name(chars: Seq<char>, s: ScanView, to: int, n: int)
    requires
        plain_feed(chars),
        quiet(s, n),
    ensures
        quiet(named(chars, s, to), n),
{
    let from = s.mark.from as int;
    assert(reads(chars, from, to, "duration"@) ==> occurs_at(chars, "duration"@, from));
    assert(reads(chars, from, to, "text"@) ==> occurs_at(chars, "text"@, from));
    assert(reads(chars, from, to, "thumbnail"@) ==> occurs_at(chars, "thumbnail"@, from));
    assert(reads(chars, from, to, "category"@) ==> occurs_at(chars, "category"@, from));
    assert(reads(chars, from, to, "content"@) ==> occurs_at(chars, "content"@, from));
}

proof fn lemma_plain_opened(chars: Seq<char>, s: ScanView, i: int)
    requires
        quiet(s, i),
        i < NESTING_LIMIT,
    ensures
        opened(chars, s, i) matches Some(n) && quiet(n, i + 1),
{
    reveal(opened);
}

proof fn lemma_plain_step(chars: Seq<char>, s: ScanView, i: int)
    requires
        plain_feed(chars),
        0 <= i < chars.len(),
        i < NESTING_LIMIT,
        quiet(s, i),
    ensures
        step(chars, s, i) matches Some(n) && quiet(n, i + 1),
{
    assert(chars[i] != '\0' && chars[i] != '\u{1b}');
    let t = noted(s, chars[i]);
    assert(quiet(t, i));
    match s.mark.place {
        Place::Stopped => {},
        Place::Open => {
            reveal(entered);
            let plain = ScanView { mark: Mark { quote: None, ..t.mark }, ..t };
            let m = moved_from(plain, Place::Name, i);
            lemma_plain_name(chars, m, i, i);
            lemma_plain_opened(chars, named(chars, m, i), i);
        },
        Place::Name => {
            lemma_plain_name(chars, t, i, i);
            lemma_plain_opened(chars, named(chars, t, i), i);
        },
        Place::Rest => {
            lemma_plain_opened(chars, t, i);
        },
        Place::Closing | Place::ClosingRest => {
            reveal(in_closing);
        },
        Place::Text => {},
        Place::Reference => {},
        Place::Instruction | Place::Comment => {
            reveal(instructed);
        },
        Place::Bang => {
            reveal(declared);
        },
        Place::Data => {},
        _ => {
            reveal(in_document_type);
        },
    }
}

proof fn lemma_plain_scan(chars: Seq<char>, n: int)
    requires
        plain_feed(chars),
        0 <= n <= chars.len(),
        n <= NESTING_LIMIT,
    ensures
        scanned(chars, n) matches Some(s) && quiet(s, n),
    decreases n,
{
    if n > 0 {
        lemma_plain_scan(chars, n - 1);
        lemma_plain_step(chars, scanned(chars, n - 1)->0, n - 1);
    }
}

/// A feed of up to 65000 characters that speaks of no lengths, times, texts,
/// thumbnails, categories or contents is always handed to the parser, and so is
/// whatever begins like JSON.
pub proof fn plain_feeds_are_never_refused(chars: Seq<char>)
    ensures
        plain_feed(chars) && chars.len() <= 65_000 ==> parser_returns_on(chars),
        chars.len() > 0 && chars[0] == '{' ==> parser_returns_on(chars),
{
    if plain_feed(chars) && chars.len() <= 65_000 {
        lemma_plain_scan(chars, chars.len() as int);
    }
}

/// A length that cannot be read stops the scan where its text ends, at a tag
/// that opens or closes; one that can be read does not.
pub proof fn unreadable_lengths_stop_the_scan(chars: Seq<char>, s: ScanView, i: int)
    requires
        0 <= i < chars.len(),
        chars[i] == '>',
        s.mark.quote is None,
        s.mark.timed,
    ensures
        s.mark.place is ClosingRest ==> (step(chars, s, i) is None <==> !play_time_reads(s.said)),
        s.mark.place is Closing ==> (step(chars, s, i) is None <==> !play_time_reads(s.said)),
        s.mark.place is Rest && !play_time_reads(s.said) ==> step(chars, s, i) is None,
{
    reveal(in_closing);
    reveal(opened);
}

/// What stands between the tags of a length is heard as it stands, up to the
/// next bracket; elsewhere nothing is.
pub proof fn lengths_are_heard_as_they_stand(chars: Seq<char>, s: ScanView, i: int)
    requires
        0 <= i < chars.len(),
        s.mark.place is Text,
        chars[i] != '<',
        chars[i] != '&',
    ensures
        step(chars, s, i) is Some,
        s.mark.timed ==> step(chars, s, i)->0.said == s.said.push(chars[i] as u32),
        !s.mark.timed ==> step(chars, s, i)->0.said == s.said,
        step(chars, s, i)->0.mark.place is Text,
        step(chars, s, i)->0.mark.timed == s.mark.timed,
{
}

/// An element gives a length where its name, without its prefix, is `duration`,
/// and its attributes give times where it is `text` or `thumbnail`.
pub proof fn lengths_and_times_are_named(chars: Seq<char>, s: ScanView, to: int)
    ensures
        named(chars, s, to).mark.duration <==> to - s.mark.from == "duration"@.len() && occurs_at(
            chars,
            "duration"@,
            s.mark.from as int,
        ),
        named(chars, s, to).mark.gives_times <==> (to - s.mark.from == "text"@.len() && occurs_at(
            chars,
            "text"@,
            s.mark.from as int,
        )) || (to - s.mark.from == "thumbnail"@.len() && occurs_at(
            chars,
            "thumbnail"@,
            s.mark.from as int,
        )),
{
}

} // verus!
