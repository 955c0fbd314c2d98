//! Structured-field extraction: a reusable two-group parser over two fixed
//! anchored patterns, the bracketed content shape `[subject]body` and the
//! address shape `name <email>`.
//!
//! Both patterns follow the usual anchored-regex reading of
//! `^\[(.*)\](.*)$` and `^(.*) <(.*)>$`: a dot never matches a newline, so
//! an input containing `'\n'` matches neither pattern, and the first group
//! is greedy, so the content splits at the last `']'` and the address at
//! the last `" <"` that still leaves room for the closing `'>'`.

use vstd::prelude::*;

verus! {

/// Which of the two fixed patterns to extract with.
#[derive(Clone, Copy, PartialEq, Eq, Structural, Debug)]
pub enum Pattern {
    /// `[subject]body`: a bracketed prefix, then the remainder.
    BracketedContent,
    /// `name <email>`: a display name, a space, then an angle-bracketed
    /// address that closes at the end of the input.
    NamedAddress,
}

/// Which command-line field an input came from; an extraction failure is
/// reported against this label.
#[derive(Clone, Copy, PartialEq, Eq, Structural, Debug)]
pub enum Field {
    Sender,
    Receiver,
    Content,
}

/// True when the string contains a newline, which no anchored
/// dot-based pattern group can match across.
pub open spec fn has_newline(s: Seq<char>) -> bool {
    exists|i: int| 0 <= i < s.len() && s[i] == '\n'
}

/// The index of the last occurrence of `c` in `s`, or `-1` when `c` does
/// not occur.
pub open spec fn last_index_of(s: Seq<char>, c: char) -> int
    decreases s.len(),
{
    if s.len() == 0 {
        -1
    } else if s[s.len() - 1] == c {
        s.len() - 1
    } else {
        last_index_of(s.drop_last(), c)
    }
}

/// What `last_index_of` returns: `-1` exactly when `c` is absent, and
/// otherwise the position of `c` that no later occurrence follows.
pub proof fn lemma_last_index_of(s: Seq<char>, c: char)
    ensures
        last_index_of(s, c) == -1 <==> (forall|i: int| 0 <= i < s.len() ==> s[i] != c),
        last_index_of(s, c) != -1 ==> {
            let j = last_index_of(s, c);
            &&& 0 <= j < s.len()
            &&& s[j] == c
            &&& forall|k: int| j < k < s.len() ==> s[k] != c
        },
    decreases s.len(),
{
    if s.len() > 0 && s[s.len() - 1] != c {
        lemma_last_index_of(s.drop_last(), c);
        assert(s.drop_last().push(s.last()) =~= s);
        assert(forall|i: int| 0 <= i < s.len() - 1 ==> s[i] == #[trigger] s.drop_last()[i]);
    }
}

/// The content pattern matches: no newline, a leading `'['`, and a `']'`
/// somewhere after it.
pub open spec fn content_matches(s: Seq<char>) -> bool {
    &&& !has_newline(s)
    &&& s.len() >= 2
    &&& s[0] == '['
    &&& exists|j: int| 1 <= j < s.len() && s[j] == ']'
}

/// Where a matching content string splits: the last `']'`.
pub open spec fn content_split(s: Seq<char>) -> int {
    last_index_of(s, ']')
}

/// The subject group of a matching content string: everything strictly
/// between the leading `'['` and the last `']'`.
pub open spec fn content_subject(s: Seq<char>) -> Seq<char>
    recommends
        content_matches(s),
{
    s.subrange(1, content_split(s))
}

/// The body group of a matching content string: everything after the last
/// `']'`, possibly empty.
pub open spec fn content_body(s: Seq<char>) -> Seq<char>
    recommends
        content_matches(s),
{
    s.subrange(content_split(s) + 1, s.len() as int)
}

/// A `" <"` separator stands at `i`, with room for the closing `'>'`
/// after it.
pub open spec fn addr_sep_at(s: Seq<char>, i: int) -> bool {
    &&& 0 <= i
    &&& i + 3 <= s.len()
    &&& s[i] == ' '
    &&& s[i + 1] == '<'
}

/// The address pattern matches: no newline, a closing `'>'` at the very
/// end, and a `" <"` separator that leaves room for it.
pub open spec fn address_matches(s: Seq<char>) -> bool {
    &&& !has_newline(s)
    &&& s.len() >= 3
    &&& s[s.len() - 1] == '>'
    &&& exists|i: int| addr_sep_at(s, i)
}

/// The last separator position strictly below `n`, or `-1` when there is
/// none.
pub open spec fn last_sep_before(s: Seq<char>, n: int) -> int
    decreases n,
{
    if n <= 0 {
        -1
    } else if addr_sep_at(s, n - 1) {
        n - 1
    } else {
        last_sep_before(s, n - 1)
    }
}

/// What `last_sep_before` returns: `-1` exactly when no separator stands
/// below `n`, and otherwise the last such position.
pub proof fn lemma_last_sep_before(s: Seq<char>, n: int)
    ensures
        last_sep_before(s, n) == -1 <==> (forall|i: int| 0 <= i < n ==> !addr_sep_at(s, i)),
        last_sep_before(s, n) != -1 ==> {
            let j = last_sep_before(s, n);
            &&& 0 <= j < n
            &&& addr_sep_at(s, j)
            &&& forall|i: int| j < i < n ==> !addr_sep_at(s, i)
        },
    decreases n,
{
    if n > 0 && !addr_sep_at(s, n - 1) {
        lemma_last_sep_before(s, n - 1);
    }
}

/// Where a matching address splits: the last separator. Every separator
/// position is at most `s.len() - 3`, so looking below `s.len() - 2`
/// loses none.
pub open spec fn addr_split(s: Seq<char>) -> int {
    last_sep_before(s, s.len() - 2)
}

/// The name group of a matching address: everything before the last
/// `" <"` separator.
pub open spec fn address_name(s: Seq<char>) -> Seq<char>
    recommends
        address_matches(s),
{
    s.subrange(0, addr_split(s))
}

/// The email group of a matching address: everything strictly between the
/// last `" <"` separator and the closing `'>'`.
pub open spec fn address_email(s: Seq<char>) -> Seq<char>
    recommends
        address_matches(s),
{
    s.subrange(addr_split(s) + 2, s.len() - 1)
}

/// Whether `s` matches the given pattern.
pub open spec fn pattern_matches(p: Pattern, s: Seq<char>) -> bool {
    match p {
        Pattern::BracketedContent => content_matches(s),
        Pattern::NamedAddress => address_matches(s),
    }
}

/// The first capture group of a matching string: the subject, or the
/// display name.
pub open spec fn group1(p: Pattern, s: Seq<char>) -> Seq<char> {
    match p {
        Pattern::BracketedContent => content_subject(s),
        Pattern::NamedAddress => address_name(s),
    }
}

/// The second capture group of a matching string: the body, or the email
/// address.
pub open spec fn group2(p: Pattern, s: Seq<char>) -> Seq<char> {
    match p {
        Pattern::BracketedContent => content_body(s),
        Pattern::NamedAddress => address_email(s),
    }
}

/// A format failure: the named field did not match its pattern.
#[derive(Clone, Copy, PartialEq, Eq, Structural, Debug)]
pub struct FormatError {
    pub field: Field,
}

/// The text of a format failure, naming the offending field.
pub open spec fn format_error_text(f: Field) -> Seq<char> {
    match f {
        Field::Sender => "Invalid sender format"@,
        Field::Receiver => "Invalid receiver format"@,
        Field::Content => "Invalid content format"@,
    }
}

impl FormatError {
    /// The human-readable message naming the field that failed to parse.
    pub fn message(&self) -> (m: String)
        ensures
            m@ == format_error_text(self.field),
    {
        match self.field {
            Field::Sender => "Invalid sender format".to_owned(),
            Field::Receiver => "Invalid receiver format".to_owned(),
            Field::Content => "Invalid content format".to_owned(),
        }
    }
}

fn contains_newline(s: &str) -> (r: bool)
    ensures
        r == has_newline(s@),
{
    let n = s.unicode_len();
    let mut k: usize = 0;
    while k < n
        invariant
            n == s@.len(),
            k <= n,
            forall|i: int| 0 <= i < k ==> s@[i] != '\n',
        decreases n - k,
    {
        if s.get_char(k) == '\n' {
            return true;
        }
        k = k + 1;
    }
    false
}

fn rfind(s: &str, c: char) -> (r: Option<usize>)
    ensures
        r matches Some(j) ==> last_index_of(s@, c) == j,
        r is None ==> last_index_of(s@, c) == -1,
{
    let n = s.unicode_len();
    let mut k: usize = n;
    while k > 0
        invariant
            n == s@.len(),
            k <= n,
            forall|i: int| k <= i < n ==> s@[i] != c,
        decreases k,
    {
        k = k - 1;
        if s.get_char(k) == c {
            proof {
                lemma_last_index_of(s@, c);
            }
            return Some(k);
        }
    }
    proof {
        lemma_last_index_of(s@, c);
    }
    None
}

fn extract_content(s: &str) -> (r: Option<(String, String)>)
    ensures
        r is Some <==> content_matches(s@),
        r matches Some(p) ==> p.0@ == content_subject(s@) && p.1@ == content_body(s@),
{
    if contains_newline(s) {
        return None;
    }
    let n = s.unicode_len();
    if n < 2 {
        return None;
    }
    if s.get_char(0) != '[' {
        return None;
    }
    match rfind(s, ']') {
        None => {
            proof {
                lemma_last_index_of(s@, ']');
            }
            None
        },
        Some(j) => {
            proof {
                lemma_last_index_of(s@, ']');
            }
            assert(1 <= j < n && s@[j as int] == ']');
            assert(content_matches(s@));
            let subject = s.substring_char(1, j).to_owned();
            let body = s.substring_char(j + 1, n).to_owned();
            Some((subject, body))
        },
    }
}

fn extract_address(s: &str) -> (r: Option<(String, String)>)
    ensures
        r is Some <==> address_matches(s@),
        r matches Some(p) ==> p.0@ == address_name(s@) && p.1@ == address_email(s@),
{
    if contains_newline(s) {
        return None;
    }
    let n = s.unicode_len();
    if n < 3 {
        return None;
    }
    if s.get_char(n - 1) != '>' {
        return None;
    }
    let mut k: usize = n - 2;
    while k > 0
        invariant
            n == s@.len(),
            3 <= n,
            k <= n - 2,
            s@[n - 1] == '>',
            !has_newline(s@),
            forall|i: int| k <= i < n - 2 ==> !addr_sep_at(s@, i),
        decreases k,
    {
        if s.get_char(k - 1) == ' ' && s.get_char(k) == '<' {
            proof {
                lemma_last_sep_before(s@, n - 2);
                assert(addr_sep_at(s@, k - 1));
                assert(addr_split(s@) == k - 1);
            }
            assert(address_matches(s@));
            let name = s.substring_char(0, k - 1).to_owned();
            let email = s.substring_char(k + 1, n - 1).to_owned();
            return Some((name, email));
        }
        k = k - 1;
    }
    proof {
        lemma_last_sep_before(s@, n - 2);
        assert forall|i: int| 0 <= i < s@.len() implies !addr_sep_at(s@, i) by {
            if addr_sep_at(s@, i) {
                assert(i < n - 2);
            }
        }
    }
    None
}

/// Extract the two capture groups of `pattern` from `input`, or report a
/// format failure against `field`.
///
/// On success the two returned strings are exactly the pattern's two
/// groups, character for character: no trimming and no other
/// transformation beyond the group boundaries themselves.
pub fn extract_pair(pattern: Pattern, field: Field, input: &str) -> (r: Result<
    (String, String),
    FormatError,
>)
    ensures
        r is Ok <==> pattern_matches(pattern, input@),
        r matches Ok(p) ==> p.0@ == group1(pattern, input@) && p.1@ == group2(pattern, input@),
        r matches Err(e) ==> e.field == field,
{
    let extracted = match pattern {
        Pattern::BracketedContent => extract_content(input),
        Pattern::NamedAddress => extract_address(input),
    };
    match extracted {
        Some(p) => Ok(p),
        None => Err(FormatError { field }),
    }
}

/// Law: a content string assembled as `"[" + subject + "]" + body`
/// extracts back to exactly that subject and body, provided neither part
/// contains a `']'` or a newline. A `']'` inside the body would move the
/// greedy split to it, and a newline defeats the anchored pattern, so
/// those inputs are excluded.
pub proof fn lemma_content_extraction_exact(subject: Seq<char>, body: Seq<char>)
    requires
        forall|i: int| 0 <= i < subject.len() ==> subject[i] != ']' && subject[i] != '\n',
        forall|i: int| 0 <= i < body.len() ==> body[i] != ']' && body[i] != '\n',
    ensures
        content_matches(seq!['['] + subject + seq![']'] + body),
        content_subject(seq!['['] + subject + seq![']'] + body) == subject,
        content_body(seq!['['] + subject + seq![']'] + body) == body,
{
    let s = seq!['['] + subject + seq![']'] + body;
    let m = subject.len() as int;
    assert(s.len() == m + body.len() + 2);
    assert(s[0] == '[');
    assert(s[m + 1] == ']');
    assert(forall|i: int| 1 <= i <= m ==> s[i] == subject[i - 1]);
    assert(forall|i: int| m + 2 <= i < s.len() ==> s[i] == body[i - m - 2]);
    assert(forall|i: int| 0 <= i < s.len() ==> s[i] != '\n');
    assert(content_matches(s));
    lemma_last_index_of(s, ']');
    assert(content_split(s) == m + 1);
    assert(content_subject(s) =~= subject);
    assert(content_body(s) =~= body);
}

/// Law: an address string assembled as `name + " <" + email + ">"`
/// extracts back to exactly that name and email, provided neither part
/// contains the two-character separator `" <"` or a newline. A `" <"`
/// inside the email would move the greedy split to it, and a newline
/// defeats the anchored pattern, so those inputs are excluded.
pub proof fn lemma_address_extraction_exact(name: Seq<char>, email: Seq<char>)
    requires
        forall|i: int| 0 <= i < name.len() ==> name[i] != '\n',
        forall|i: int| 0 <= i + 1 < name.len() ==> !((#[trigger] name[i]) == ' ' && name[i + 1] == '<'),
        forall|i: int| 0 <= i < email.len() ==> email[i] != '\n',
        forall|i: int| 0 <= i + 1 < email.len() ==> !((#[trigger] email[i]) == ' ' && email[i + 1] == '<'),
    ensures
        address_matches(name + seq![' ', '<'] + email + seq!['>']),
        address_name(name + seq![' ', '<'] + email + seq!['>']) == name,
        address_email(name + seq![' ', '<'] + email + seq!['>']) == email,
{
    let s = name + seq![' ', '<'] + email + seq!['>'];
    let m = name.len() as int;
    assert(s.len() == m + email.len() + 3);
    assert(forall|i: int| 0 <= i < m ==> s[i] == name[i]);
    assert(s[m] == ' ');
    assert(s[m + 1] == '<');
    assert(forall|i: int| m + 2 <= i < s.len() - 1 ==> s[i] == email[i - m - 2]);
    assert(s[s.len() - 1] == '>');
    assert(forall|i: int| 0 <= i < s.len() ==> s[i] != '\n');
    assert(addr_sep_at(s, m));
    assert(address_matches(s));
    assert forall|i: int| m < i < s.len() - 2 implies !addr_sep_at(s, i) by {
        if addr_sep_at(s, i) {
            if i == m + 1 {
                assert(s[i] == '<');
            } else {
                assert(s[i] == email[i - m - 2]);
                assert(s[i + 1] == email[i - m - 1]);
            }
        }
    }
    lemma_last_sep_before(s, s.len() - 2);
    assert forall|i: int| 0 <= i < m implies !addr_sep_at(s, i) by {
        if addr_sep_at(s, i) && i + 1 < m {
            assert(s[i] == name[i] && s[i + 1] == name[i + 1]);
        }
        if addr_sep_at(s, i) && i + 1 == m {
            assert(s[i + 1] == ' ');
        }
    }
    assert(addr_split(s) == m);
    assert(address_name(s) =~= name);
    assert(address_email(s) =~= email);
}

/// Law: extraction cannot succeed on an input lacking its pattern's
/// delimiters. A content string without a leading `'['` or without any
/// `']'` matches nothing; an address without a final `'>'` or without a
/// `'<'` anywhere matches nothing.
pub proof fn lemma_missing_delimiters_fail(s: Seq<char>)
    ensures
        s.len() < 2 || s[0] != '[' || (forall|j: int| 0 <= j < s.len() ==> s[j] != ']')
            ==> !content_matches(s),
        s.len() < 3 || s[s.len() - 1] != '>' || (forall|i: int| 0 <= i < s.len() ==> s[i] != '<')
            ==> !address_matches(s),
{
    if forall|i: int| 0 <= i < s.len() ==> s[i] != '<' {
        assert forall|i: int| 0 <= i < s.len() implies !addr_sep_at(s, i) by {
            if addr_sep_at(s, i) {
                assert(s[i + 1] == '<');
            }
        }
        assert(!address_matches(s));
    }
}

}

