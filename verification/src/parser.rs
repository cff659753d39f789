//! The segmenter: a two-state scanner that cuts a template source into
//! literal text and code fragments delimited by `{{` and `}}`.

use crate::errors::Error;
use crate::template::{segments_of, Segment, TemplateData};
use crate::text::{
    append_decimal, byte_length, byte_offset, chars_of, concat_all, decimal, is_blank,
    is_blank_text, lemma_concat_all_append, lemma_concat_all_one, string_of,
};
use vstd::prelude::*;
use vstd::string::*;

verus! {

/// Whether `c` stands at position `i` of `s` and again right after it.
pub open spec fn pair_at(s: Seq<char>, c: char, i: int) -> bool {
    0 <= i && i + 1 < s.len() && s[i] == c && s[i + 1] == c
}

/// How far it is from `from` to the first place at or after it where `c`
/// stands twice in a row; where there is no such place, how far it is to the
/// end of `s`.
pub open spec fn pair_distance(s: Seq<char>, c: char, from: int) -> nat
    decreases s.len() - from,
{
    if from >= s.len() || pair_at(s, c, from) {
        0
    } else {
        1 + pair_distance(s, c, from + 1)
    }
}

/// What one scan of the source yields.
pub enum Scan {
    /// A token, the position at which the scan goes on, and whether it goes
    /// on inside a code fragment.
    Token { segment: Segment, resume: int, inside: bool },
    /// The source is used up.
    End,
    /// The source ended inside the code fragment whose opening delimiter
    /// stands at the byte offset `offset`.
    Unterminated { offset: nat },
}

/// The next token of `s` from `start` on, before any token is dropped.
///
/// Outside a fragment the text up to the next `{{` is a literal, and so is
/// what is left where no `{{` follows. Inside a fragment the text up to the
/// next `}}` is code, kept with one brace on each side so that it reads as a
/// block; without a `}}` the fragment is unterminated.
pub open spec fn scan_raw(s: Seq<char>, start: int, inside: bool) -> Scan {
    if inside {
        let i = start + pair_distance(s, '}', start);
        if i < s.len() {
            Scan::Token {
                segment: Segment::Code(s.subrange(start - 1, i + 1)),
                resume: i + 2,
                inside: false,
            }
        } else {
            Scan::Unterminated { offset: byte_length(s.take(start - 2)) }
        }
    } else {
        let i = start + pair_distance(s, '{', start);
        if i < s.len() {
            Scan::Token { segment: Segment::Text(s.subrange(start, i)), resume: i + 2, inside: true }
        } else if start < s.len() {
            Scan::Token {
                segment: Segment::Text(s.subrange(start, s.len() as int)),
                resume: s.len() as int,
                inside: false,
            }
        } else {
            Scan::End
        }
    }
}

/// What stands between the braces of the code token `code`: the text of the
/// fragment as it stood between its delimiters.
pub open spec fn fragment_text(code: Seq<char>) -> Seq<char> {
    code.subrange(1, code.len() - 1)
}

/// Whether a token is dropped before it is handed on: an empty literal, or a
/// code fragment that holds nothing, or nothing but white space, between its
/// delimiters.
pub open spec fn dropped(segment: Segment) -> bool {
    match segment {
        Segment::Text(t) => t.len() == 0,
        Segment::Code(t) => t.len() >= 2 && is_blank(fragment_text(t)),
    }
}

/// The next token of `s` from `start` on that is not dropped.
pub open spec fn scan(s: Seq<char>, start: int, inside: bool) -> Scan
    decreases s.len() + 1 - start,
{
    match scan_raw(s, start, inside) {
        Scan::Token { segment, resume, inside: next } => if dropped(segment) {
            scan(s, resume, next)
        } else {
            Scan::Token { segment, resume, inside: next }
        },
        other => other,
    }
}

/// The message of the error for a fragment that opens at the byte offset
/// `offset` and is never closed.
pub open spec fn unterminated_message(offset: nat) -> Seq<char> {
    "Unexpected end of input while parsing key (fragment opened at offset "@ + decimal(offset)
        + ")"@
}

/// The whole token sequence of `s` from `start` on, without the tokens that
/// are dropped, or the offset of the fragment that is never closed.
pub open spec fn tokens_from(s: Seq<char>, start: int, inside: bool) -> Result<Seq<Segment>, nat>
    decreases s.len() + 1 - start,
{
    match scan_raw(s, start, inside) {
        Scan::Token { segment, resume, inside: next } => match tokens_from(s, resume, next) {
            Ok(rest) => Ok(
                if dropped(segment) {
                    rest
                } else {
                    seq![segment] + rest
                },
            ),
            Err(offset) => Err(offset),
        },
        Scan::End => Ok(Seq::empty()),
        Scan::Unterminated { offset } => Err(offset),
    }
}

/// The token sequence of a whole template source.
pub open spec fn tokens_of(s: Seq<char>) -> Result<Seq<Segment>, nat> {
    tokens_from(s, 0, false)
}

/// Whether the code token `code` holds nothing but white space between its
/// braces.
pub fn is_blank_fragment(code: &str) -> (b: bool)
    ensures
        b == dropped(Segment::Code(code@)),
{
    let chars = chars_of(code);
    if chars.len() < 2 {
        return false;
    }
    let inner = string_of(&chars, 1, chars.len() - 1);
    is_blank_text(inner.as_str())
}

#[derive(Debug, PartialEq, Eq, Clone, Copy)]
enum State {
    Outside,
    Inside,
}

/// A scanner over one template source. It hands out the tokens one by one, in
/// source order.
pub struct Parser {
    source: Vec<char>,
    pos: usize,
    last_pos: usize,
    state: State,
}

impl Parser {
    /// The source that the parser reads.
    pub closed spec fn source(&self) -> Seq<char> {
        self.source@
    }

    /// The position, in characters, from which the next token is cut.
    pub closed spec fn start(&self) -> int {
        self.last_pos as int
    }

    /// Whether the parser stands inside a code fragment.
    pub closed spec fn inside(&self) -> bool {
        self.state == State::Inside
    }

    /// The delimiter character that the parser is looking for.
    spec fn wanted(&self) -> char {
        if self.state == State::Inside {
            '}'
        } else {
            '{'
        }
    }

    /// The invariant of a parser: it stands within its source, what it has
    /// passed over holds no delimiter, and inside a fragment the opening
    /// delimiter lies right behind the start.
    pub closed spec fn wf(&self) -> bool {
        &&& self.last_pos <= self.pos <= self.source.len()
        &&& pair_distance(self.source@, self.wanted(), self.last_pos as int) == (self.pos
            - self.last_pos) + pair_distance(self.source@, self.wanted(), self.pos as int)
        &&& self.state == State::Inside ==> self.last_pos >= 2 && self.source@[self.last_pos - 1]
            == '{'
    }

    /// A parser at the beginning of `input`, outside any fragment.
    pub fn new(input: &str) -> (parser: Parser)
        ensures
            parser.wf(),
            parser.source() == input@,
            parser.start() == 0,
            !parser.inside(),
    {
        Parser { source: chars_of(input), pos: 0, last_pos: 0, state: State::Outside }
    }

    fn advance(&mut self) -> (c: Option<char>)
        requires
            old(self).pos <= old(self).source.len(),
        ensures
            final(self).source == old(self).source,
            final(self).last_pos == old(self).last_pos,
            final(self).state == old(self).state,
            old(self).pos < old(self).source.len() ==> c == Some(old(self).source@[old(self).pos as int])
                && final(self).pos == old(self).pos + 1,
            old(self).pos == old(self).source.len() ==> c is None && final(self).pos == old(
                self,
            ).pos,
    {
        if self.pos < self.source.len() {
            let ch = self.source[self.pos];
            self.pos += 1;
            Some(ch)
        } else {
            None
        }
    }

    fn peek(&self) -> (c: Option<char>)
        ensures
            c == if self.pos < self.source.len() {
                Some(self.source@[self.pos as int])
            } else {
                None
            },
    {
        if self.pos < self.source.len() {
            Some(self.source[self.pos])
        } else {
            None
        }
    }

    fn peek_next(&self) -> (c: Option<char>)
        ensures
            c == if self.pos + 1 < self.source.len() {
                Some(self.source@[self.pos + 1])
            } else {
                None
            },
    {
        if self.pos < self.source.len() && self.pos + 1 < self.source.len() {
            Some(self.source[self.pos + 1])
        } else {
            None
        }
    }

    /// Whether the wanted delimiter stands at the current position.
    fn at_pair(&self, c: char) -> (b: bool)
        ensures
            b == pair_at(self.source@, c, self.pos as int),
    {
        match self.peek() {
            Some(ch) => ch == c && match self.peek_next() {
                Some(next) => next == c,
                None => false,
            },
            None => false,
        }
    }

    /// The next token that is not dropped, `None` at the end of the source,
    /// or the error for a fragment that is never closed. After the end, and
    /// after an error, every further call gives the same answer.
    pub fn next(&mut self) -> (r: Option<Result<TemplateData, Error>>)
        requires
            old(self).wf(),
        ensures
            final(self).wf(),
            final(self).source() == old(self).source(),
            match scan(old(self).source(), old(self).start(), old(self).inside()) {
                Scan::Token { segment, resume, inside } => {
                    &&& r matches Some(Ok(token))
                    &&& token@ == segment
                    &&& !dropped(segment)
                    &&& final(self).start() == resume
                    &&& final(self).inside() == inside
                },
                Scan::End => {
                    &&& r is None
                    &&& scan(final(self).source(), final(self).start(), final(self).inside())
                        == Scan::End
                },
                Scan::Unterminated { offset } => {
                    &&& r matches Some(Err(Error::ParseError(msg)))
                    &&& msg@ == unterminated_message(offset)
                    &&& scan(final(self).source(), final(self).start(), final(self).inside())
                        == (Scan::Unterminated { offset })
                },
            },
    {
        loop
            invariant
                self.wf(),
                self.source@ == old(self).source@,
                scan(self.source@, self.last_pos as int, self.state == State::Inside) == scan(
                    old(self).source@,
                    old(self).last_pos as int,
                    old(self).state == State::Inside,
                ),
            decreases self.source.len() + 1 - self.last_pos,
        {
            match self.next_impl() {
                Ok(Some(data)) => {
                    let skip = match &data {
                        TemplateData::String(s) => s.as_str().is_empty(),
                        TemplateData::Code(code) => is_blank_fragment(code.as_str()),
                    };
                    if !skip {
                        return Some(Ok(data));
                    }
                },
                Ok(None) => {
                    return None;
                },
                Err(e) => {
                    return Some(Err(e));
                },
            }
        }
    }

    /// The next token as the source gives it, before any token is dropped:
    /// an empty literal and a blank code fragment are handed out like any
    /// other.
    pub fn next_impl(&mut self) -> (r: Result<Option<TemplateData>, Error>)
        requires
            old(self).wf(),
        ensures
            final(self).wf(),
            final(self).source() == old(self).source(),
            match scan_raw(old(self).source(), old(self).start(), old(self).inside()) {
                Scan::Token { segment, resume, inside } => {
                    &&& r matches Ok(Some(token))
                    &&& token@ == segment
                    &&& final(self).start() == resume
                    &&& final(self).inside() == inside
                },
                Scan::End => {
                    &&& r matches Ok(None)
                    &&& final(self).start() == old(self).start()
                    &&& final(self).inside() == old(self).inside()
                },
                Scan::Unterminated { offset } => {
                    &&& r matches Err(Error::ParseError(msg))
                    &&& msg@ == unterminated_message(offset)
                    &&& final(self).start() == old(self).start()
                    &&& final(self).inside() == old(self).inside()
                },
            },
    {
        loop
            invariant
                self.wf(),
                self.source == old(self).source,
                self.last_pos == old(self).last_pos,
                self.state == old(self).state,
            decreases self.source.len() - self.pos,
        {
            match self.state {
                State::Outside => {
                    if self.pos < self.source.len() {
                        if self.at_pair('{') {
                            let text = string_of(&self.source, self.last_pos, self.pos);
                            self.advance();
                            self.advance();
                            self.last_pos = self.pos;
                            self.state = State::Inside;
                            return Ok(Some(TemplateData::String(text)));
                        } else {
                            self.advance();
                        }
                    } else {
                        if self.last_pos < self.source.len() {
                            let text = string_of(&self.source, self.last_pos, self.source.len());
                            self.last_pos = self.source.len();
                            return Ok(Some(TemplateData::String(text)));
                        }
                        return Ok(None);
                    }
                },
                State::Inside => {
                    if self.pos < self.source.len() {
                        if self.at_pair('}') {
                            let code = string_of(&self.source, self.last_pos - 1, self.pos + 1);
                            self.advance();
                            self.advance();
                            self.last_pos = self.pos;
                            self.state = State::Outside;
                            return Ok(Some(TemplateData::Code(code)));
                        } else {
                            self.advance();
                        }
                    } else {
                        let mut msg = String::from_str(
                            "Unexpected end of input while parsing key (fragment opened at offset ",
                        );
                        append_decimal(&mut msg, byte_offset(&self.source, self.last_pos - 2));
                        msg.append(")");
                        return Err(Error::ParseError(msg));
                    }
                },
            }
        }
    }
}

/// What `tokens_from` gives when `segment` comes first and `rest` is what
/// follows it.
pub open spec fn prepend(segment: Segment, rest: Result<Seq<Segment>, nat>) -> Result<
    Seq<Segment>,
    nat,
> {
    match rest {
        Ok(tokens) => Ok(seq![segment] + tokens),
        Err(offset) => Err(offset),
    }
}

/// The token sequence is what scanning for one kept token after the other
/// gives: a scan that yields a token moves forward, the token is not one of
/// those that are dropped, and the sequence is that token and then the
/// sequence from where the scan goes on.
pub proof fn lemma_tokens_by_scan(s: Seq<char>, start: int, inside: bool)
    ensures
        match scan(s, start, inside) {
            Scan::Token { segment, resume, inside: next } => {
                &&& !dropped(segment)
                &&& start < resume <= s.len() + 1
                &&& tokens_from(s, start, inside) == prepend(segment, tokens_from(s, resume, next))
            },
            Scan::End => tokens_from(s, start, inside) == Ok::<Seq<Segment>, nat>(Seq::empty()),
            Scan::Unterminated { offset } => tokens_from(s, start, inside) == Err::<
                Seq<Segment>,
                nat,
            >(offset),
        },
    decreases s.len() + 1 - start,
{
    match scan_raw(s, start, inside) {
        Scan::Token { segment, resume, inside: next } => {
            if dropped(segment) {
                lemma_tokens_by_scan(s, resume, next);
            }
        },
        _ => {},
    }
}

/// Cuts a whole template source into its tokens, in source order. It fails,
/// with no tokens at all, where a code fragment is opened and never closed.
pub fn parse_template(input: &str) -> (r: Result<Vec<TemplateData>, Error>)
    ensures
        match tokens_of(input@) {
            Ok(segments) => r matches Ok(tokens) && segments_of(tokens@) == segments,
            Err(offset) => r matches Err(Error::ParseError(msg)) && msg@ == unterminated_message(
                offset,
            ),
        },
{
    let mut parser = Parser::new(input);
    let mut result: Vec<TemplateData> = Vec::new();
    assert(segments_of(result@) =~= Seq::<Segment>::empty());
    loop
        invariant
            parser.wf(),
            parser.source() == input@,
            tokens_of(input@) == match tokens_from(input@, parser.start(), parser.inside()) {
                Ok(rest) => Ok::<Seq<Segment>, nat>(segments_of(result@) + rest),
                Err(offset) => Err::<Seq<Segment>, nat>(offset),
            },
        decreases input@.len() + 1 - parser.start(),
    {
        proof {
            lemma_tokens_by_scan(input@, parser.start(), parser.inside());
        }
        let ghost before = segments_of(result@);
        match parser.next() {
            Some(Ok(token)) => {
                result.push(token);
                proof {
                    assert(segments_of(result@) =~= before.push(token@));
                    match tokens_from(input@, parser.start(), parser.inside()) {
                        Ok(rest) => {
                            assert(before + (seq![token@] + rest) =~= segments_of(result@) + rest);
                        },
                        Err(_) => {},
                    }
                }
            },
            Some(Err(e)) => {
                return Err(e);
            },
            None => {
                assert(segments_of(result@) + Seq::<Segment>::empty() =~= segments_of(result@));
                return Ok(result);
            },
        }
    }
}

/// The stretches of source that the tokens of `segments` were cut from, in
/// order.
pub open spec fn raws_of(segments: Seq<Segment>) -> Seq<Seq<char>> {
    segments.map_values(|g: Segment| g.raw())
}

/// The whole token sequence of `s` from `start` on as the scanner cuts it,
/// with every token that is later dropped still in it, or the offset of the
/// fragment that is never closed.
pub open spec fn raw_tokens_from(s: Seq<char>, start: int, inside: bool) -> Result<
    Seq<Segment>,
    nat,
>
    decreases s.len() + 1 - start,
{
    match scan_raw(s, start, inside) {
        Scan::Token { segment, resume, inside: next } => prepend(
            segment,
            raw_tokens_from(s, resume, next),
        ),
        Scan::End => Ok(Seq::empty()),
        Scan::Unterminated { offset } => Err(offset),
    }
}

/// The token sequence of a whole template source before any token is
/// dropped.
pub open spec fn raw_tokens_of(s: Seq<char>) -> Result<Seq<Segment>, nat> {
    raw_tokens_from(s, 0, false)
}

/// The tokens of `segments` that are not dropped, in their order.
pub open spec fn kept(segments: Seq<Segment>) -> Seq<Segment>
    decreases segments.len(),
{
    if segments.len() == 0 {
        Seq::empty()
    } else if dropped(segments[0]) {
        kept(segments.drop_first())
    } else {
        seq![segments[0]] + kept(segments.drop_first())
    }
}

/// Whether no code fragment among `segments` is blank.
pub open spec fn no_blank_fragment(segments: Seq<Segment>) -> bool {
    forall|i: int|
        0 <= i < segments.len() && #[trigger] segments[i] is Code ==> !dropped(segments[i])
}

/// Where the first double `c` at or after `from` lies: nothing before it is
/// one, and it is one unless the end of `s` was reached.
pub proof fn lemma_pair_distance(s: Seq<char>, c: char, from: int)
    requires
        0 <= from <= s.len(),
    ensures
        from + pair_distance(s, c, from) <= s.len(),
        from + pair_distance(s, c, from) < s.len() ==> pair_at(
            s,
            c,
            from + pair_distance(s, c, from),
        ),
        forall|j: int| from <= j < from + pair_distance(s, c, from) ==> !pair_at(s, c, j),
    decreases s.len() - from,
{
    if from < s.len() && !pair_at(s, c, from) {
        lemma_pair_distance(s, c, from + 1);
    }
}

proof fn lemma_raw_round_trip_from(s: Seq<char>, start: int, inside: bool)
    requires
        0 <= start <= s.len(),
        inside ==> start >= 2 && s[start - 1] == '{' && s[start - 2] == '{',
    ensures
        raw_tokens_from(s, start, inside) matches Ok(segments) ==> concat_all(raws_of(segments))
            == s.subrange(
            if inside {
                start - 2
            } else {
                start
            },
            s.len() as int,
        ),
    decreases s.len() + 1 - start,
{
    let len = s.len() as int;
    if inside {
        lemma_pair_distance(s, '}', start);
    } else {
        lemma_pair_distance(s, '{', start);
    }
    match scan_raw(s, start, inside) {
        Scan::Token { segment, resume, inside: next } => {
            lemma_raw_round_trip_from(s, resume, next);
            if let Ok(rest) = raw_tokens_from(s, resume, next) {
                let segments = seq![segment] + rest;
                assert(raws_of(segments) =~= seq![segment.raw()] + raws_of(rest));
                lemma_concat_all_append(seq![segment.raw()], raws_of(rest));
                lemma_concat_all_one(segment.raw());
                if inside {
                    assert(segment.raw() =~= s.subrange(start - 2, resume));
                    assert(s.subrange(start - 2, resume) + s.subrange(resume, len)
                        =~= s.subrange(start - 2, len));
                } else if next {
                    assert(s.subrange(start, resume - 2) + s.subrange(resume - 2, len)
                        =~= s.subrange(start, len));
                } else {
                    assert(s.subrange(start, len) + s.subrange(len, len) =~= s.subrange(
                        start,
                        len,
                    ));
                }
            }
        },
        Scan::End => {
            assert(raws_of(Seq::<Segment>::empty()) =~= Seq::<Seq<char>>::empty());
            assert(s.subrange(start, len) =~= Seq::<char>::empty());
        },
        Scan::Unterminated { .. } => {},
    }
}

/// The tokens that the scanner cuts partition the source: where every
/// fragment is closed, the stretches that the tokens were cut from, each code
/// fragment with its delimiters, empty literals and blank fragments among
/// them, put one after the other give the source again, with no character
/// lost, added or moved.
pub proof fn lemma_raw_round_trip(s: Seq<char>)
    ensures
        raw_tokens_of(s) matches Ok(segments) ==> concat_all(raws_of(segments)) == s,
{
    lemma_raw_round_trip_from(s, 0, false);
    assert(s.subrange(0, s.len() as int) =~= s);
}

/// The token sequence that is handed on is the one that the scanner cuts,
/// without the tokens that are dropped; both fail alike.
pub proof fn lemma_tokens_are_kept(s: Seq<char>, start: int, inside: bool)
    ensures
        tokens_from(s, start, inside) == match raw_tokens_from(s, start, inside) {
            Ok(raw) => Ok::<Seq<Segment>, nat>(kept(raw)),
            Err(offset) => Err::<Seq<Segment>, nat>(offset),
        },
    decreases s.len() + 1 - start,
{
    match scan_raw(s, start, inside) {
        Scan::Token { segment, resume, inside: next } => {
            lemma_tokens_are_kept(s, resume, next);
            if let Ok(rest) = raw_tokens_from(s, resume, next) {
                let raw = seq![segment] + rest;
                assert(raw[0] == segment);
                assert(raw.drop_first() =~= rest);
            }
        },
        Scan::End => {},
        Scan::Unterminated { .. } => {},
    }
}

/// Dropping tokens that stand for no character changes nothing of what the
/// tokens were cut from.
proof fn lemma_kept_raws(segments: Seq<Segment>)
    requires
        no_blank_fragment(segments),
    ensures
        concat_all(raws_of(kept(segments))) == concat_all(raws_of(segments)),
    decreases segments.len(),
{
    if segments.len() == 0 {
    } else {
        let head = segments[0];
        let tail = segments.drop_first();
        assert forall|i: int| 0 <= i < tail.len() && #[trigger] tail[i] is Code implies !dropped(
            tail[i],
        ) by {
            assert(tail[i] == segments[i + 1]);
        }
        lemma_kept_raws(tail);
        assert(segments =~= seq![head] + tail);
        assert(raws_of(segments) =~= seq![head.raw()] + raws_of(tail));
        lemma_concat_all_append(seq![head.raw()], raws_of(tail));
        lemma_concat_all_one(head.raw());
        if dropped(head) {
            assert(head is Text);
            assert(head.raw() =~= Seq::<char>::empty());
            assert(concat_all(raws_of(segments)) =~= concat_all(raws_of(tail)));
        } else {
            assert(raws_of(kept(segments)) =~= seq![head.raw()] + raws_of(kept(tail)));
            lemma_concat_all_append(seq![head.raw()], raws_of(kept(tail)));
        }
    }
}

/// The tokens that are handed on partition a source that holds no blank
/// fragment: put one after the other, the stretches that they were cut from
/// give the source again.
pub proof fn lemma_round_trip(s: Seq<char>)
    requires
        raw_tokens_of(s) matches Ok(raw) && no_blank_fragment(raw),
    ensures
        tokens_of(s) matches Ok(segments) && concat_all(raws_of(segments)) == s,
{
    lemma_tokens_are_kept(s, 0, false);
    lemma_raw_round_trip(s);
    lemma_kept_raws(raw_tokens_of(s)->Ok_0);
}

proof fn lemma_kept_from(s: Seq<char>, start: int, inside: bool)
    requires
        0 <= start <= s.len(),
        inside ==> start >= 2,
    ensures
        tokens_from(s, start, inside) matches Ok(segments) ==> forall|i: int|
            0 <= i < segments.len() ==> {
                &&& !dropped(#[trigger] segments[i])
                &&& segments[i] matches Segment::Code(t) ==> t.len() >= 2
            },
    decreases s.len() + 1 - start,
{
    if inside {
        lemma_pair_distance(s, '}', start);
    } else {
        lemma_pair_distance(s, '{', start);
    }
    match scan_raw(s, start, inside) {
        Scan::Token { segment, resume, inside: next } => {
            lemma_kept_from(s, resume, next);
        },
        _ => {},
    }
}

/// A token sequence holds no token that should have been dropped: no literal
/// is empty, and no code fragment is empty or nothing but white space
/// between its delimiters.
pub proof fn lemma_no_empty_token(s: Seq<char>)
    ensures
        tokens_of(s) matches Ok(segments) ==> forall|i: int|
            0 <= i < segments.len() ==> {
                &&& !dropped(#[trigger] segments[i])
                &&& segments[i] matches Segment::Text(t) ==> t.len() > 0
                &&& segments[i] matches Segment::Code(t) ==> !is_blank(fragment_text(t))
            },
{
    lemma_kept_from(s, 0, false);
}

} // verus!
