//! The wire-format message parser.
//!
//! One protocol line is parsed into a [`Message`]: an optional source
//! (introduced by a leading `:`), a verb, and a list of arguments. The last
//! argument may contain spaces when it was introduced by a lone `:`.

use vstd::prelude::*;
use vstd::string::StrSliceExecFns;

verus! {

/// A character that separates tokens on a protocol line: any Unicode
/// whitespace character.
pub open spec fn is_space(c: char) -> bool {
    let u = c as u32;
    ||| (0x09 <= u && u <= 0x0D)
    ||| u == 0x20
    ||| u == 0x85
    ||| u == 0xA0
    ||| u == 0x1680
    ||| (0x2000 <= u && u <= 0x200A)
    ||| u == 0x2028
    ||| u == 0x2029
    ||| u == 0x202F
    ||| u == 0x205F
    ||| u == 0x3000
}

/// The first position at or after `i` that does not hold a space, or the
/// length of the sequence if spaces run to its end.
pub open spec fn skip_spaces_spec(s: Seq<char>, i: int) -> int
    decreases s.len() - i when 0 <= i <= s.len()
{
    if i < s.len() && is_space(s[i]) {
        skip_spaces_spec(s, i + 1)
    } else {
        i
    }
}

/// The first position at or after `i` that holds a space, or the length of
/// the sequence if the token runs to its end.
pub open spec fn token_end_spec(s: Seq<char>, i: int) -> int
    decreases s.len() - i when 0 <= i <= s.len()
{
    if i < s.len() && !is_space(s[i]) {
        token_end_spec(s, i + 1)
    } else {
        i
    }
}

/// Where the token chomped at position `i` starts: after the space run.
pub open spec fn tok_start_spec(s: Seq<char>, i: int) -> int {
    skip_spaces_spec(s, i)
}

/// Where the token chomped at position `i` ends.
pub open spec fn tok_end_spec(s: Seq<char>, i: int) -> int {
    token_end_spec(s, tok_start_spec(s, i))
}

/// The token chomped at position `i`: skip spaces, then take characters up
/// to the next space.
pub open spec fn chomp_token_spec(s: Seq<char>, i: int) -> Seq<char> {
    s.subrange(tok_start_spec(s, i), tok_end_spec(s, i))
}

/// The scan position after chomping a token at position `i`: the token's
/// end with the following space run skipped as well.
pub open spec fn chomp_next_spec(s: Seq<char>, i: int) -> int {
    skip_spaces_spec(s, tok_end_spec(s, i))
}

pub proof fn lemma_skip_spaces(s: Seq<char>, i: int)
    requires
        0 <= i <= s.len(),
    ensures
        i <= skip_spaces_spec(s, i) <= s.len(),
        skip_spaces_spec(s, i) < s.len() ==> !is_space(s[skip_spaces_spec(s, i)]),
        forall|j: int| i <= j < skip_spaces_spec(s, i) ==> is_space(s[j]),
    decreases s.len() - i,
{
    if i < s.len() && is_space(s[i]) {
        lemma_skip_spaces(s, i + 1);
    }
}

pub proof fn lemma_token_end(s: Seq<char>, i: int)
    requires
        0 <= i <= s.len(),
    ensures
        i <= token_end_spec(s, i) <= s.len(),
        token_end_spec(s, i) < s.len() ==> is_space(s[token_end_spec(s, i)]),
        forall|j: int| i <= j < token_end_spec(s, i) ==> !is_space(s[j]),
    decreases s.len() - i,
{
    if i < s.len() && !is_space(s[i]) {
        lemma_token_end(s, i + 1);
    }
}

/// Bounds for the combined chomp positions.
pub proof fn lemma_chomp(s: Seq<char>, i: int)
    requires
        0 <= i <= s.len(),
    ensures
        i <= tok_start_spec(s, i) <= tok_end_spec(s, i) <= chomp_next_spec(s, i) <= s.len(),
        chomp_next_spec(s, i) < s.len() ==> !is_space(s[chomp_next_spec(s, i)]),
        i < s.len() && !is_space(s[i]) ==> i < tok_end_spec(s, i),
{
    lemma_skip_spaces(s, i);
    lemma_token_end(s, tok_start_spec(s, i));
    lemma_skip_spaces(s, tok_end_spec(s, i));
}

/// A cursor over one protocol line, advanced token by token.
pub struct Scanner<'a> {
    s: &'a str,
    pos: usize,
    len: usize,
}

impl<'a> Scanner<'a> {
    /// The scanned text.
    pub closed spec fn text(&self) -> Seq<char> {
        self.s@
    }

    /// The current position, in characters.
    pub closed spec fn at(&self) -> int {
        self.pos as int
    }

    /// The position is within the text and the cached length is right.
    pub closed spec fn wf(&self) -> bool {
        self.len == self.s@.len() && 0 <= self.pos <= self.len
    }

    pub fn new(s: &'a str) -> (sc: Scanner<'a>)
        ensures
            sc.wf(),
            sc.text() == s@,
            sc.at() == 0,
    {
        let len = s.unicode_len();
        Scanner { s, pos: 0, len }
    }

    /// The character at the cursor, or a line terminator once the text is
    /// exhausted, so that a caller may test it without a bounds check.
    pub fn peek(&self) -> (c: char)
        requires
            self.wf(),
        ensures
            c == if self.at() < self.text().len() {
                self.text()[self.at()]
            } else {
                '\n'
            },
    {
        if self.pos < self.len {
            self.s.get_char(self.pos)
        } else {
            '\n'
        }
    }

    /// Whether the cursor has reached the end of the text.
    pub fn empty(&self) -> (r: bool)
        requires
            self.wf(),
        ensures
            r == (self.at() == self.text().len()),
    {
        self.pos >= self.len
    }

    /// Advances the cursor by one character; at the end of the text this
    /// does nothing.
    pub fn skip(&mut self)
        requires
            old(self).wf(),
        ensures
            final(self).wf(),
            final(self).text() == old(self).text(),
            final(self).at() == if old(self).at() < old(self).text().len() {
                old(self).at() + 1
            } else {
                old(self).at()
            },
    {
        if self.pos < self.len {
            self.pos = self.pos + 1;
        }
    }

    /// Advances the cursor past the current run of spaces.
    pub fn skip_spaces(&mut self)
        requires
            old(self).wf(),
        ensures
            final(self).wf(),
            final(self).text() == old(self).text(),
            final(self).at() == skip_spaces_spec(old(self).text(), old(self).at()),
    {
        while self.pos < self.len && is_space_char(self.s.get_char(self.pos))
            invariant
                self.wf(),
                self.text() == old(self).text(),
                skip_spaces_spec(self.text(), self.at()) == skip_spaces_spec(
                    old(self).text(),
                    old(self).at(),
                ),
            decreases self.len - self.pos,
        {
            self.pos = self.pos + 1;
        }
    }

    /// Skips leading spaces, takes the token running to the next space, and
    /// skips the spaces that follow it.
    pub fn chomp(&mut self) -> (t: &'a str)
        requires
            old(self).wf(),
        ensures
            final(self).wf(),
            final(self).text() == old(self).text(),
            t@ == chomp_token_spec(old(self).text(), old(self).at()),
            final(self).at() == chomp_next_spec(old(self).text(), old(self).at()),
    {
        proof {
            lemma_chomp(self.text(), self.at());
        }
        self.skip_spaces();
        let start = self.pos;
        while self.pos < self.len && !is_space_char(self.s.get_char(self.pos))
            invariant
                self.wf(),
                self.text() == old(self).text(),
                start <= self.pos,
                token_end_spec(self.text(), self.at()) == token_end_spec(
                    self.text(),
                    start as int,
                ),
            decreases self.len - self.pos,
        {
            self.pos = self.pos + 1;
        }
        let end = self.pos;
        self.skip_spaces();
        let text: &'a str = self.s;
        text.substring_char(start, end)
    }

    /// Takes everything from the cursor to the end of the text.
    pub fn chomp_remaining(&mut self) -> (t: &'a str)
        requires
            old(self).wf(),
        ensures
            final(self).wf(),
            final(self).text() == old(self).text(),
            t@ == old(self).text().subrange(old(self).at(), old(self).text().len() as int),
            final(self).at() == final(self).text().len(),
    {
        let start = self.pos;
        self.pos = self.len;
        let text: &'a str = self.s;
        text.substring_char(start, self.len)
    }
}

/// Executable form of [`is_space`].
pub(crate) fn is_space_char(c: char) -> (r: bool)
    ensures
        r == is_space(c),
{
    let u = c as u32;
    (0x09 <= u && u <= 0x0D) || u == 0x20 || u == 0x85 || u == 0xA0 || u == 0x1680 || (0x2000 <= u
        && u <= 0x200A) || u == 0x2028 || u == 0x2029 || u == 0x202F || u == 0x205F || u == 0x3000
}

/// A character that delimits the parts of a source prefix.
pub open spec fn is_delim(c: char) -> bool {
    c == '.' || c == '!' || c == '@'
}

/// The first position at or after `i` holding the character `c`.
pub open spec fn first_from(s: Seq<char>, i: int, c: char) -> Option<int>
    decreases s.len() - i when 0 <= i <= s.len()
{
    if i >= s.len() {
        None
    } else if s[i] == c {
        Some(i)
    } else {
        first_from(s, i + 1, c)
    }
}

/// The first position at or after `i` holding a delimiter.
pub open spec fn first_delim_from(s: Seq<char>, i: int) -> Option<int>
    decreases s.len() - i when 0 <= i <= s.len()
{
    if i >= s.len() {
        None
    } else if is_delim(s[i]) {
        Some(i)
    } else {
        first_delim_from(s, i + 1)
    }
}

/// The mathematical form of a parsed message source.
pub enum SourceV {
    Missing,
    User(Seq<char>, Option<Seq<char>>, Option<Seq<char>>),
    Server(Seq<char>),
}

/// What [`MessageSource::parse`] returns on a prefix `s`: a hostname when
/// the first delimiter is a dot; a nick, user and host split on the first
/// `!` and `@` when one of those comes first, tolerating the anomalous
/// order where `@` precedes `!`; a bare nick when no delimiter occurs; and
/// no source at all on an empty prefix.
pub open spec fn source_spec(s: Seq<char>) -> SourceV {
    if s.len() == 0 {
        SourceV::Missing
    } else {
        match first_delim_from(s, 0) {
            None => SourceV::User(s, None, None),
            Some(d) => {
                if s[d] == '.' {
                    SourceV::Server(s)
                } else {
                    let ex = first_from(s, 0, '!');
                    let at = first_from(s, 0, '@');
                    match (ex, at) {
                        (Some(exi), Some(ati)) => {
                            if exi < ati {
                                SourceV::User(
                                    s.subrange(0, exi),
                                    Some(s.subrange(exi + 1, ati)),
                                    Some(s.subrange(ati + 1, s.len() as int)),
                                )
                            } else {
                                SourceV::User(
                                    s.subrange(0, ati),
                                    Some(s.subrange(exi + 1, s.len() as int)),
                                    Some(s.subrange(ati + 1, exi)),
                                )
                            }
                        },
                        (Some(exi), None) => SourceV::User(
                            s.subrange(0, exi),
                            Some(s.subrange(exi + 1, s.len() as int)),
                            None,
                        ),
                        (None, Some(ati)) => SourceV::User(
                            s.subrange(0, ati),
                            None,
                            Some(s.subrange(ati + 1, s.len() as int)),
                        ),
                        (None, None) => SourceV::User(s, None, None),
                    }
                }
            },
        }
    }
}

/// The parsed source of an IRC message.
#[derive(Debug, PartialEq, Eq)]
pub enum MessageSource {
    Missing,
    User(String, Option<String>, Option<String>),
    Server(String),
}

impl View for MessageSource {
    type V = SourceV;

    open spec fn view(&self) -> SourceV {
        match self {
            MessageSource::Missing => SourceV::Missing,
            MessageSource::User(n, u, h) => SourceV::User(
                n@,
                match u {
                    Some(x) => Some(x@),
                    None => None,
                },
                match h {
                    Some(x) => Some(x@),
                    None => None,
                },
            ),
            MessageSource::Server(h) => SourceV::Server(h@),
        }
    }
}

/// Finds the first occurrence of `c` in `s`, by character position.
fn find_char(s: &str, c: char) -> (r: Option<usize>)
    ensures
        r matches Some(i) ==> first_from(s@, 0, c) == Some(i as int) && i < s@.len() && s@[i as int]
            == c,
        r is None ==> first_from(s@, 0, c) is None,
{
    let len = s.unicode_len();
    let mut i: usize = 0;
    while i < len
        invariant
            0 <= i <= len,
            len == s@.len(),
            first_from(s@, 0, c) == first_from(s@, i as int, c),
        decreases len - i,
    {
        if s.get_char(i) == c {
            return Some(i);
        }
        i = i + 1;
    }
    None
}

/// Finds the first delimiter in `s`, by character position.
fn find_delim(s: &str) -> (r: Option<usize>)
    ensures
        r matches Some(i) ==> first_delim_from(s@, 0) == Some(i as int) && i < s@.len() && is_delim(
            s@[i as int],
        ),
        r is None ==> first_delim_from(s@, 0) is None,
{
    let len = s.unicode_len();
    let mut i: usize = 0;
    while i < len
        invariant
            0 <= i <= len,
            len == s@.len(),
            first_delim_from(s@, 0) == first_delim_from(s@, i as int),
        decreases len - i,
    {
        let c = s.get_char(i);
        if c == '.' || c == '!' || c == '@' {
            return Some(i);
        }
        i = i + 1;
    }
    None
}

/// The short display name of a message source: the nick of a user, the
/// hostname of a server, and nothing for a missing source.
pub open spec fn short_name_spec(s: SourceV) -> Seq<char> {
    match s {
        SourceV::Missing => Seq::empty(),
        SourceV::User(n, _, _) => n,
        SourceV::Server(h) => h,
    }
}

impl MessageSource {
    /// The source's short display name, used when addressing a reply back
    /// to whoever sent a message.
    pub fn short_name(&self) -> (r: &str)
        ensures
            r@ == short_name_spec(self@),
    {
        match self {
            MessageSource::Missing => {
                let r = "";
                proof {
                    reveal_strlit("");
                    assert(r@ =~= Seq::<char>::empty());
                }
                r
            },
            MessageSource::User(n, _, _) => n.as_str(),
            MessageSource::Server(h) => h.as_str(),
        }
    }

    /// Parses a source prefix. This never fails: a malformed prefix
    /// degrades to the most reasonable split.
    pub fn parse(src: &str) -> (r: MessageSource)
        ensures
            r@ == source_spec(src@),
    {
        let len = src.unicode_len();
        if len == 0 {
            return MessageSource::Missing;
        }
        match find_delim(src) {
            None => MessageSource::User(src.to_owned(), None, None),
            Some(d) => {
                if src.get_char(d) == '.' {
                    MessageSource::Server(src.to_owned())
                } else {
                    let ex = find_char(src, '!');
                    let at = find_char(src, '@');
                    match (ex, at) {
                        (Some(exi), Some(ati)) => {
                            if exi < ati {
                                MessageSource::User(
                                    src.substring_char(0, exi).to_owned(),
                                    Some(src.substring_char(exi + 1, ati).to_owned()),
                                    Some(src.substring_char(ati + 1, len).to_owned()),
                                )
                            } else {
                                MessageSource::User(
                                    src.substring_char(0, ati).to_owned(),
                                    Some(src.substring_char(exi + 1, len).to_owned()),
                                    Some(src.substring_char(ati + 1, exi).to_owned()),
                                )
                            }
                        },
                        (Some(exi), None) => MessageSource::User(
                            src.substring_char(0, exi).to_owned(),
                            Some(src.substring_char(exi + 1, len).to_owned()),
                            None,
                        ),
                        (None, Some(ati)) => MessageSource::User(
                            src.substring_char(0, ati).to_owned(),
                            None,
                            Some(src.substring_char(ati + 1, len).to_owned()),
                        ),
                        (None, None) => MessageSource::User(src.to_owned(), None, None),
                    }
                }
            },
        }
    }
}

/// The argument list read from position `i`, which must stand on a
/// non-space character or at the end of the line: a token introduced by a
/// lone `:` takes the whole remainder verbatim and ends the list; any other
/// token is one argument, and reading continues after it.
pub open spec fn args_spec(s: Seq<char>, i: int) -> Seq<Seq<char>>
    decreases s.len() - i when 0 <= i <= s.len()
{
    if i >= s.len() {
        Seq::empty()
    } else if s[i] == ':' {
        seq![s.subrange(i + 1, s.len() as int)]
    } else {
        let nxt = chomp_next_spec(s, i);
        if i < nxt <= s.len() {
            seq![chomp_token_spec(s, i)] + args_spec(s, nxt)
        } else {
            seq![chomp_token_spec(s, i)]
        }
    }
}

/// The mathematical form of a parsed message.
pub struct MessageV {
    pub src: SourceV,
    pub verb: Seq<char>,
    pub args: Seq<Seq<char>>,
}

/// What [`Message::parse`] returns on a line `s`: after leading spaces, an
/// optional `:`-introduced source token, then the verb token, then the
/// argument list.
pub open spec fn parse_spec(s: Seq<char>) -> MessageV {
    let i0 = skip_spaces_spec(s, 0);
    if i0 < s.len() && s[i0] == ':' {
        let src = source_spec(chomp_token_spec(s, i0 + 1));
        let i1 = chomp_next_spec(s, i0 + 1);
        MessageV {
            src,
            verb: chomp_token_spec(s, i1),
            args: args_spec(s, chomp_next_spec(s, i1)),
        }
    } else {
        MessageV {
            src: SourceV::Missing,
            verb: chomp_token_spec(s, i0),
            args: args_spec(s, chomp_next_spec(s, i0)),
        }
    }
}

/// The parsed form of an IRC message.
#[derive(Debug, PartialEq, Eq)]
pub struct Message {
    pub src: MessageSource,
    pub verb: String,
    pub args: Vec<String>,
}

impl View for Message {
    type V = MessageV;

    open spec fn view(&self) -> MessageV {
        MessageV { src: self.src@, verb: self.verb@, args: self.args.deep_view() }
    }
}

impl Message {
    /// Parses one protocol line into a `Message`. Parsing never fails: an
    /// empty line yields an empty verb and no arguments.
    pub fn parse(line: &str) -> (r: Result<Message, &'static str>)
        ensures
            r is Ok,
            r matches Ok(m) ==> m@ == parse_spec(line@),
    {
        let ghost s = line@;
        let mut scan = Scanner::new(line);
        scan.skip_spaces();

        let src = if scan.peek() == ':' {
            scan.skip();
            let tok = scan.chomp();
            MessageSource::parse(tok)
        } else {
            MessageSource::Missing
        };

        let ghost i1 = scan.at();
        let verb = scan.chomp();
        let ghost i2 = scan.at();
        proof {
            lemma_chomp(s, i1);
        }

        let mut args: Vec<String> = Vec::new();
        while !scan.empty()
            invariant
                scan.wf(),
                scan.text() == s,
                scan.at() == s.len() || !is_space(s[scan.at()]),
                0 <= i2 <= s.len(),
                args.deep_view() + args_spec(s, scan.at()) == args_spec(s, i2),
            decreases s.len() - scan.at(),
        {
            let ghost i = scan.at();
            let ghost prev = args.deep_view();
            if scan.peek() == ':' {
                scan.skip();
                let rest = scan.chomp_remaining();
                args.push(rest.to_owned());
                proof {
                    assert(args.deep_view() =~= prev.push(rest@));
                    assert(args.deep_view() + args_spec(s, scan.at()) =~= args_spec(s, i2));
                }
            } else {
                proof {
                    lemma_chomp(s, i);
                }
                let tok = scan.chomp();
                args.push(tok.to_owned());
                proof {
                    assert(args.deep_view() =~= prev.push(tok@));
                    assert(args.deep_view() + args_spec(s, scan.at()) =~= args_spec(s, i2));
                }
            }
        }
        proof {
            assert(args.deep_view() =~= args_spec(s, i2));
        }

        Ok(Message { src, verb: verb.to_owned(), args })
    }
}

/// A line that carries no `:`-introduced prefix parses to a message with no
/// source: whatever the verb and arguments, the source is `Missing`.
pub proof fn lemma_no_prefix_source_missing(s: Seq<char>)
    requires
        skip_spaces_spec(s, 0) == s.len() || s[skip_spaces_spec(s, 0)] != ':',
    ensures
        parse_spec(s).src == SourceV::Missing,
{
    lemma_skip_spaces(s, 0);
}

} // verus!
