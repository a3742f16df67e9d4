use vstd::prelude::*;
use vstd::utf8::valid_utf8;

verus! {

/// Why the identifier header of a message could not be rewritten.
#[derive(Debug, Clone, Copy, PartialEq, Eq, Structural)]
pub enum RewriteError {
    /// No line of the message starts with `message-id:`.
    NotFound,
    /// From the start of the header line on, the message is not well-formed UTF-8.
    InvalidUtf8,
    /// No line feed follows the header line.
    Unterminated,
}

/// Multi-line, case-insensitive: a line that starts with `message-id:` and has
/// at least one more character.
pub const MESSAGE_ID_PATTERN: &'static str = "(?imu)^message-id:.+$";

/// Length of the random identifier written into a rewritten header.
pub const TOKEN_LEN: usize = 30;

/// The byte that ends a line.
pub const LINE_FEED: u8 = 10;

/// Start of the leftmost match of the regular expression `pattern` in `haystack`.
pub uninterp spec fn regex_match_start(pattern: Seq<char>, haystack: Seq<u8>) -> Option<nat>;

/// Where the identifier header line of `eml` starts, if it has one.
pub open spec fn header_start(eml: Seq<u8>) -> Option<nat> {
    regex_match_start(MESSAGE_ID_PATTERN@, eml)
}

/// The first line feed at or after `from`, or `eml.len()` where there is none.
pub open spec fn line_end(eml: Seq<u8>, from: int) -> int
    decreases eml.len() - from,
{
    if from >= eml.len() {
        eml.len() as int
    } else if eml[from] == LINE_FEED {
        from
    } else {
        line_end(eml, from + 1)
    }
}

/// A line ends at or after where it is looked for, on a line feed or at the end.
pub proof fn lemma_line_end_bounds(eml: Seq<u8>, from: int)
    requires
        0 <= from <= eml.len(),
    ensures
        from <= line_end(eml, from) <= eml.len(),
        line_end(eml, from) < eml.len() ==> eml[line_end(eml, from)] == LINE_FEED,
    decreases eml.len() - from,
{
    if from < eml.len() && eml[from] != LINE_FEED {
        lemma_line_end_bounds(eml, from + 1);
    }
}

/// `Message-ID: `, the header name written in front of a new identifier.
pub open spec fn header_name() -> Seq<u8> {
    seq![77u8, 101u8, 115u8, 115u8, 97u8, 103u8, 101u8, 45u8, 73u8, 68u8, 58u8, 32u8]
}

/// An ASCII digit or letter.
pub open spec fn is_alphanumeric(b: u8) -> bool {
    (48 <= b <= 57) || (65 <= b <= 90) || (97 <= b <= 122)
}

/// A valid identifier: `TOKEN_LEN` ASCII letters and digits.
pub open spec fn is_token(token: Seq<u8>) -> bool {
    token.len() == TOKEN_LEN && forall|i: int| 0 <= i < token.len() ==> is_alphanumeric(#[trigger] token[i])
}

/// `eml` with the line that starts at `start` and ends before `end` replaced by
/// `Message-ID: ` followed by `token`.
pub open spec fn replace_line(eml: Seq<u8>, start: int, end: int, token: Seq<u8>) -> Seq<u8> {
    eml.take(start) + header_name() + token + eml.skip(end)
}

/// `out` is `eml` with its identifier header line replaced by a fresh identifier.
pub open spec fn is_rewrite_of(eml: Seq<u8>, out: Seq<u8>) -> bool {
    let span = locate_header(eml)->Ok_0;
    locate_header(eml) is Ok && exists|token: Seq<u8>|
        is_token(token) && out == #[trigger] replace_line(eml, span.0, span.1, token)
}

/// The span of the identifier header line that a rewrite replaces: from its start
/// up to (not including) the line feed that ends it.
pub open spec fn locate_header(eml: Seq<u8>) -> Result<(int, int), RewriteError> {
    match header_start(eml) {
        None => Err(RewriteError::NotFound),
        Some(start) => if start > eml.len() || !valid_utf8(eml.skip(start as int)) {
            Err(RewriteError::InvalidUtf8)
        } else if line_end(eml, start as int) == eml.len() {
            Err(RewriteError::Unterminated)
        } else {
            Ok((start as int, line_end(eml, start as int)))
        },
    }
}

/// Relies on regex::bytes::Regex::new and Regex::find: the start of the leftmost
/// match, an offset into `haystack`. A pattern that does not compile matches nowhere.
#[verifier::external_body]
fn first_match_start(pattern: &str, haystack: &[u8]) -> (r: Option<usize>)
    ensures
        r matches Some(s) ==> s <= haystack@.len(),
        r matches Some(s) ==> regex_match_start(pattern@, haystack@) == Some(s as nat),
        r is None ==> regex_match_start(pattern@, haystack@) is None,
{
    match regex::bytes::Regex::new(pattern) {
        Ok(re) => re.find(haystack).map(|m| m.start()),
        Err(_) => None,
    }
}

/// Relies on std::str::from_utf8, which accepts exactly the well-formed UTF-8 sequences.
#[verifier::external_body]
fn is_utf8(bytes: &[u8]) -> (r: bool)
    ensures
        r == valid_utf8(bytes@),
{
    std::str::from_utf8(bytes).is_ok()
}

/// Relies on rand's Alphanumeric distribution, sampled from thread_rng: `len` bytes,
/// each one of the 62 ASCII letters and digits.
#[verifier::external_body]
fn random_alphanumeric(len: usize) -> (r: Vec<u8>)
    ensures
        r@.len() == len,
        forall|i: int| 0 <= i < r@.len() ==> is_alphanumeric(#[trigger] r@[i]),
{
    rand::Rng::sample_iter(rand::thread_rng(), &rand::distributions::Alphanumeric).take(len).collect()
}

/// Position of the first line feed in `eml` at or after `from`, or `eml.len()`.
pub fn find_line_end(eml: &[u8], from: usize) -> (r: usize)
    requires
        from <= eml@.len(),
    ensures
        r as int == line_end(eml@, from as int),
{
    let mut i: usize = from;
    while i < eml.len()
        invariant
            from <= i <= eml@.len(),
            line_end(eml@, from as int) == line_end(eml@, i as int),
        decreases eml@.len() - i,
    {
        if eml[i] == LINE_FEED {
            return i;
        }
        i = i + 1;
    }
    i
}

fn push_header_name(out: &mut Vec<u8>)
    ensures
        final(out)@ == old(out)@ + header_name(),
{
    out.push(77u8);
    out.push(101u8);
    out.push(115u8);
    out.push(115u8);
    out.push(97u8);
    out.push(103u8);
    out.push(101u8);
    out.push(45u8);
    out.push(73u8);
    out.push(68u8);
    out.push(58u8);
    out.push(32u8);
    assert(final(out)@ =~= old(out)@ + header_name());
}

/// Appends `src[from..to]` to `out`.
fn push_range(out: &mut Vec<u8>, src: &[u8], from: usize, to: usize)
    requires
        from <= to <= src@.len(),
    ensures
        final(out)@ == old(out)@ + src@.subrange(from as int, to as int),
{
    let mut i: usize = from;
    while i < to
        invariant
            from <= i <= to <= src@.len(),
            out@ == old(out)@ + src@.subrange(from as int, i as int),
        decreases to - i,
    {
        out.push(src[i]);
        i = i + 1;
        assert(out@ =~= old(out)@ + src@.subrange(from as int, i as int));
    }
}

/// Replaces the header line that starts at `start` with `Message-ID: ` and `token`,
/// keeping every byte before it and, from the line feed that ends it, every byte after.
/// Fails where no line feed follows `start`.
pub fn replace_header_line(eml: &[u8], start: usize, token: &[u8]) -> (r: Result<Vec<u8>, RewriteError>)
    requires
        start <= eml@.len(),
    ensures
        line_end(eml@, start as int) == eml@.len() ==> r == Err::<Vec<u8>, RewriteError>(RewriteError::Unterminated),
        line_end(eml@, start as int) < eml@.len() ==> (r matches Ok(v)
            && v@ == replace_line(eml@, start as int, line_end(eml@, start as int), token@)),
{
    let end = find_line_end(eml, start);
    proof {
        lemma_line_end_bounds(eml@, start as int);
    }
    if end == eml.len() {
        return Err(RewriteError::Unterminated);
    }
    let mut out: Vec<u8> = Vec::new();
    push_range(&mut out, eml, 0, start);
    push_header_name(&mut out);
    push_range(&mut out, token, 0, token.len());
    push_range(&mut out, eml, end, eml.len());
    assert(out@ =~= replace_line(eml@, start as int, end as int, token@));
    Ok(out)
}

/// Where the identifier header of `eml` is, or why it cannot be rewritten.
pub fn locate_message_id(eml: &[u8]) -> (r: Result<(usize, usize), RewriteError>)
    ensures
        r matches Ok((s, e)) ==> locate_header(eml@) == Ok::<(int, int), RewriteError>((s as int, e as int)),
        r matches Err(err) ==> locate_header(eml@) == Err::<(int, int), RewriteError>(err),
{
    let start = match first_match_start(MESSAGE_ID_PATTERN, eml) {
        None => return Err(RewriteError::NotFound),
        Some(s) => s,
    };
    let rest = vstd::slice::slice_subrange(eml, start, eml.len());
    assert(rest@ =~= eml@.skip(start as int));
    if !is_utf8(rest) {
        return Err(RewriteError::InvalidUtf8);
    }
    let end = find_line_end(eml, start);
    if end == eml.len() {
        return Err(RewriteError::Unterminated);
    }
    Ok((start, end))
}

/// Replaces the value of the identifier header of `eml` with a fresh random token of
/// `TOKEN_LEN` letters and digits, touching no other line.
pub fn randomize_message_id(eml: &[u8]) -> (r: Result<Vec<u8>, RewriteError>)
    ensures
        locate_header(eml@) matches Err(err) ==> r == Err::<Vec<u8>, RewriteError>(err),
        locate_header(eml@) is Ok ==> (r matches Ok(v) && is_rewrite_of(eml@, v@)),
{
    let (start, end) = match locate_message_id(eml) {
        Err(err) => return Err(err),
        Ok(span) => span,
    };
    proof {
        lemma_line_end_bounds(eml@, start as int);
    }
    let token = random_alphanumeric(TOKEN_LEN);
    let r = replace_header_line(eml, start, token.as_slice());
    assert(is_rewrite_of(eml@, r->Ok_0@)) by {
        let ghost span = locate_header(eml@)->Ok_0;
        assert(span.0 == start as int && span.1 == end as int);
        assert(is_token(token@) && r->Ok_0@ == replace_line(eml@, span.0, span.1, token@));
    }
    r
}

/// A rewrite keeps every byte before the header line and every byte from the line feed
/// that ends it, and writes between them `Message-ID: ` and `TOKEN_LEN` letters and digits.
pub proof fn lemma_rewrite_touches_one_line(eml: Seq<u8>, out: Seq<u8>)
    requires
        is_rewrite_of(eml, out),
    ensures
        ({
            let (start, end) = locate_header(eml)->Ok_0;
            let value_start = start + header_name().len();
            let value_end = value_start + TOKEN_LEN;
            &&& 0 <= start <= end < eml.len()
            &&& eml[end] == LINE_FEED
            &&& out.len() == eml.len() - (end - start) + header_name().len() + TOKEN_LEN
            &&& out.take(start) == eml.take(start)
            &&& out.subrange(start, value_start) == header_name()
            &&& is_token(out.subrange(value_start, value_end))
            &&& out.skip(value_end) == eml.skip(end)
        }),
{
    let (start, end) = locate_header(eml)->Ok_0;
    let token = choose|token: Seq<u8>| is_token(token) && out == #[trigger] replace_line(eml, start, end, token);
    lemma_line_end_bounds(eml, start);
    let value_start = start + header_name().len();
    let value_end = value_start + TOKEN_LEN;
    assert(out.take(start) =~= eml.take(start));
    assert(out.subrange(start, value_start) =~= header_name());
    assert(out.subrange(value_start, value_end) =~= token);
    assert(out.skip(value_end) =~= eml.skip(end));
}

} // verus!
