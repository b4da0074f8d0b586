//! Values that the dedicated inquiry forms ask for, drawn from the subject
//! and description of a Redmine issue.

use vstd::prelude::*;

use crate::text::{
    ascii_lowercase, ascii_lowercase_of, char_is_alphanumeric, chars_of, find_from,
    first_occurrence_from, is_ascii_digit, lemma_first_occurrence_from, occurs_at, seq_equal, starts_with,
    starts_with_exec, string_of, trim, trim_exec, unicode_alphanumeric,
};
use crate::numbers::{decimal_value, lemma_decimal_value_push};
use crate::tokens::{runs, runs_exec, words, TokenClass};

verus! {

/// The characters that `trim_start_matches` strips before a mod name.
pub open spec fn is_name_separator(c: char) -> bool {
    c == '：' || c == ':' || c == '-' || c == '—' || c == ' '
}

pub open spec fn trim_start_separators(s: Seq<char>) -> Seq<char>
    decreases s.len(),
{
    if s.len() > 0 && is_name_separator(s[0]) {
        trim_start_separators(s.drop_first())
    } else {
        s
    }
}

/// The mod name written after "使用可否" in the subject, if any.
pub open spec fn mod_name_in(subject: Seq<char>) -> Option<Seq<char>> {
    match first_occurrence_from(subject, "使用可否"@, 0) {
        None => None,
        Some(i) => {
            let rest = subject.subrange(i + "使用可否"@.len(), subject.len() as int);
            let value = trim(trim_start_separators(trim(rest)));
            if value.len() == 0 || value == "のお問い合わせ"@ || value == "について"@ || value
                == "の問い合わせ"@ {
                None
            } else {
                Some(value)
            }
        },
    }
}

pub open spec fn mod_name(subject: Seq<char>) -> Seq<char> {
    match mod_name_in(subject) {
        Some(name) => name,
        None => "（件名から特定できず）"@,
    }
}

/// The characters that are trimmed from both ends of a token that may be a URL.
pub open spec fn is_url_delimiter(c: char) -> bool {
    ||| c == '<'
    ||| c == '>'
    ||| c == '('
    ||| c == ')'
    ||| c == '['
    ||| c == ']'
    ||| c == '{'
    ||| c == '}'
    ||| c == '"'
    ||| c == '\''
    ||| c == '、'
    ||| c == '。'
    ||| c == '，'
    ||| c == ','
}

pub open spec fn trim_start_delimiters(s: Seq<char>) -> Seq<char>
    decreases s.len(),
{
    if s.len() > 0 && is_url_delimiter(s[0]) {
        trim_start_delimiters(s.drop_first())
    } else {
        s
    }
}

pub open spec fn trim_end_delimiters(s: Seq<char>) -> Seq<char>
    decreases s.len(),
{
    if s.len() > 0 && is_url_delimiter(s.last()) {
        trim_end_delimiters(s.drop_last())
    } else {
        s
    }
}

/// A whitespace-separated token, without surrounding delimiters, when it is
/// an http(s) URL.
pub open spec fn url_in_token(token: Seq<char>) -> Option<Seq<char>> {
    let t = trim_end_delimiters(trim_start_delimiters(token));
    if starts_with(t, "https://"@) || starts_with(t, "http://"@) {
        Some(t)
    } else {
        None
    }
}

pub open spec fn first_url_among(tokens: Seq<Seq<char>>) -> Option<Seq<char>>
    decreases tokens.len(),
{
    if tokens.len() == 0 {
        None
    } else {
        match url_in_token(tokens[0]) {
            Some(url) => Some(url),
            None => first_url_among(tokens.drop_first()),
        }
    }
}

/// The first URL of the subject, or else of the description.
pub open spec fn first_url_text(subject: Seq<char>, description: Seq<char>) -> Seq<char> {
    match first_url_among(words(subject) + words(description)) {
        Some(url) => url,
        None => "（URLの記載なし）"@,
    }
}

/// What `str::parse::<u8>` accepts among strings of ASCII digits.
pub open spec fn is_u8_decimal(s: Seq<char>) -> bool {
    &&& s.len() > 0
    &&& forall|k: int| 0 <= k < s.len() ==> is_ascii_digit(#[trigger] s[k])
    &&& decimal_value(s) <= 255
}

/// The indices of the dots among the first `n` characters of `t`, in order.
pub open spec fn dots_before(t: Seq<char>, n: int) -> Seq<int>
    decreases n,
{
    if n <= 0 {
        Seq::empty()
    } else if t[n - 1] == '.' {
        dots_before(t, n - 1).push(n - 1)
    } else {
        dots_before(t, n - 1)
    }
}

/// A token of digits and dots that is a dotted-quad IPv4 address: exactly
/// three dots, and four parts that each parse as a `u8`.
pub open spec fn is_ipv4_token(t: Seq<char>) -> bool {
    let d = dots_before(t, t.len() as int);
    &&& d.len() == 3
    &&& is_u8_decimal(t.subrange(0, d[0]))
    &&& is_u8_decimal(t.subrange(d[0] + 1, d[1]))
    &&& is_u8_decimal(t.subrange(d[1] + 1, d[2]))
    &&& is_u8_decimal(t.subrange(d[2] + 1, t.len() as int))
}

/// Going through `tokens` in order, the IPv4 addresses not yet in `found`
/// added to it, each once.
pub open spec fn add_distinct_addresses(found: Seq<Seq<char>>, tokens: Seq<Seq<char>>) -> Seq<
    Seq<char>,
>
    decreases tokens.len(),
{
    if tokens.len() == 0 {
        found
    } else {
        let t = tokens[0];
        let next = if is_ipv4_token(t) && !found.contains(t) {
            found.push(t)
        } else {
            found
        };
        add_distinct_addresses(next, tokens.drop_first())
    }
}

/// `lines` joined with a newline between each two.
pub open spec fn join_lines(lines: Seq<Seq<char>>) -> Seq<char>
    decreases lines.len(),
{
    if lines.len() == 0 {
        Seq::empty()
    } else if lines.len() == 1 {
        lines[0]
    } else {
        join_lines(lines.drop_last()) + seq!['\n'] + lines.last()
    }
}

pub open spec fn ipv4_addresses_text(subject: Seq<char>, description: Seq<char>) -> Seq<char> {
    join_lines(
        add_distinct_addresses(
            Seq::empty(),
            runs(subject, TokenClass::DigitOrDot) + runs(description, TokenClass::DigitOrDot),
        ),
    )
}

/// Placeholder words that mean that an author field was left unfilled.
pub open spec fn unfilled_markers() -> Seq<Seq<char>> {
    seq![
        "なし"@,
        "無し"@,
        "不明"@,
        "未回答"@,
        "未記入"@,
        "未入力"@,
        "無回答"@,
        "空欄"@,
        "回答なし"@,
        "回答無し"@,
        "記載なし"@,
        "記載無し"@,
        "該当なし"@,
        "該当無し"@,
        "特になし"@,
        "特に無し"@,
        "n/a"@,
        "na"@,
        "none"@,
        "unknown"@,
    ]
}

/// An author field value that carries no information: empty, without any
/// letter or digit, or a placeholder word (compared without ASCII case).
pub open spec fn is_unfilled(value: Seq<char>) -> bool {
    ||| value.len() == 0
    ||| !(exists|i: int| 0 <= i < value.len() && unicode_alphanumeric(#[trigger] value[i]))
    ||| unfilled_markers().contains(ascii_lowercase(value))
}

fn is_name_separator_exec(c: char) -> (r: bool)
    ensures
        r == is_name_separator(c),
{
    c == '：' || c == ':' || c == '-' || c == '—' || c == ' '
}

fn trim_start_separators_exec(s: &Vec<char>) -> (r: Vec<char>)
    ensures
        r@ == trim_start_separators(s@),
{
    let mut i: usize = 0;
    assert(s@.subrange(0, s@.len() as int) =~= s@);
    while i < s.len() && is_name_separator_exec(s[i])
        invariant
            i <= s@.len(),
            trim_start_separators(s@) == trim_start_separators(s@.subrange(i as int, s@.len() as int)),
        decreases s@.len() - i,
    {
        assert(s@.subrange(i as int, s@.len() as int).drop_first() =~= s@.subrange(
            i + 1,
            s@.len() as int,
        ));
        i = i + 1;
    }
    let mut r: Vec<char> = Vec::new();
    let mut k = i;
    while k < s.len()
        invariant
            i <= k <= s@.len(),
            r@ == s@.subrange(i as int, k as int),
        decreases s@.len() - k,
    {
        r.push(s[k]);
        k = k + 1;
        assert(r@ =~= s@.subrange(i as int, k as int));
    }
    proof {
        assert(s@.subrange(0, s@.len() as int) =~= s@);
    }
    r
}

fn equals_str(v: &Vec<char>, s: &str) -> (r: bool)
    ensures
        r == (v@ == s@),
{
    seq_equal(v, &chars_of(s))
}

/// The mod name written after "使用可否" in the subject, or a note that the
/// subject does not name one.
pub fn extract_mod_name(subject: &str, _description: &str) -> (name: String)
    ensures
        name@ == mod_name(subject@),
{
    let subject_chars = chars_of(subject);
    let marker = chars_of("使用可否");
    proof {
        lemma_first_occurrence_from(subject_chars@, marker@, 0);
    }
    let n = subject_chars.len();
    if let Some(index) = find_from(&subject_chars, &marker, 0) {
        assert(occurs_at(subject_chars@, marker@, index as int));
        let mut rest: Vec<char> = Vec::new();
        let mut k = index + marker.len();
        let start = k;
        while k < subject_chars.len()
            invariant
                start <= k <= subject_chars@.len(),
                rest@ == subject_chars@.subrange(start as int, k as int),
            decreases subject_chars@.len() - k,
        {
            rest.push(subject_chars[k]);
            k = k + 1;
            assert(rest@ =~= subject_chars@.subrange(start as int, k as int));
        }
        let value = trim_exec(&trim_start_separators_exec(&trim_exec(&rest)));
        if !(value.len() == 0 || equals_str(&value, "のお問い合わせ") || equals_str(
            &value,
            "について",
        ) || equals_str(&value, "の問い合わせ")) {
            return string_of(&value);
        }
    }
    String::from_str("（件名から特定できず）")
}

fn trim_delimiters_exec(s: &Vec<char>) -> (r: Vec<char>)
    ensures
        r@ == trim_end_delimiters(trim_start_delimiters(s@)),
{
    let mut i: usize = 0;
    assert(s@.subrange(0, s@.len() as int) =~= s@);
    while i < s.len() && is_url_delimiter_exec(s[i])
        invariant
            i <= s@.len(),
            trim_start_delimiters(s@) == trim_start_delimiters(s@.subrange(i as int, s@.len() as int)),
        decreases s@.len() - i,
    {
        assert(s@.subrange(i as int, s@.len() as int).drop_first() =~= s@.subrange(
            i + 1,
            s@.len() as int,
        ));
        i = i + 1;
    }
    proof {
        assert(s@.subrange(0, s@.len() as int) =~= s@);
        assert(trim_start_delimiters(s@.subrange(i as int, s@.len() as int)) == s@.subrange(
            i as int,
            s@.len() as int,
        ));
    }
    let mut end = s.len();
    while end > i && is_url_delimiter_exec(s[end - 1])
        invariant
            i <= end <= s@.len(),
            trim_end_delimiters(s@.subrange(i as int, s@.len() as int)) == trim_end_delimiters(
                s@.subrange(i as int, end as int),
            ),
        decreases end,
    {
        assert(s@.subrange(i as int, end as int).drop_last() =~= s@.subrange(i as int, end - 1));
        end = end - 1;
    }
    let mut r: Vec<char> = Vec::new();
    let mut k = i;
    while k < end
        invariant
            i <= k <= end <= s@.len(),
            r@ == s@.subrange(i as int, k as int),
        decreases end - k,
    {
        r.push(s[k]);
        k = k + 1;
        assert(r@ =~= s@.subrange(i as int, k as int));
    }
    r
}

fn is_url_delimiter_exec(c: char) -> (r: bool)
    ensures
        r == is_url_delimiter(c),
{
    c == '<' || c == '>' || c == '(' || c == ')' || c == '[' || c == ']' || c == '{' || c == '}'
        || c == '"' || c == '\'' || c == '、' || c == '。' || c == '，' || c == ','
}

/// The first URL of two token lists in a row is that of the first list, if
/// it has one, else that of the second.
pub proof fn lemma_first_url_among_concat(a: Seq<Seq<char>>, b: Seq<Seq<char>>)
    ensures
        first_url_among(a + b) == match first_url_among(a) {
            Some(url) => Some(url),
            None => first_url_among(b),
        },
    decreases a.len(),
{
    if a.len() > 0 {
        assert((a + b).drop_first() =~= a.drop_first() + b);
        lemma_first_url_among_concat(a.drop_first(), b);
    } else {
        assert(a + b =~= b);
    }
}

fn first_url_in_tokens(tokens: &Vec<Vec<char>>) -> (url: Option<Vec<char>>)
    ensures
        match first_url_among(tokens.deep_view()) {
            Some(u) => url matches Some(v) && v@ == u,
            None => url is None,
        },
{
    let ghost all = tokens.deep_view();
    let https = chars_of("https://");
    let http = chars_of("http://");
    let mut i: usize = 0;
    assert(all.subrange(0, all.len() as int) =~= all);
    while i < tokens.len()
        invariant
            i <= tokens@.len(),
            tokens.deep_view() == all,
            first_url_among(all) == first_url_among(all.subrange(i as int, all.len() as int)),
            https@ == "https://"@,
            http@ == "http://"@,
        decreases tokens@.len() - i,
    {
        let t = trim_delimiters_exec(&tokens[i]);
        proof {
            assert(tokens@[i as int]@ == all[i as int]);
            assert(all.subrange(i as int, all.len() as int)[0] == all[i as int]);
            assert(all.subrange(i as int, all.len() as int).drop_first() =~= all.subrange(
                i + 1,
                all.len() as int,
            ));
        }
        if starts_with_exec(&t, &https) || starts_with_exec(&t, &http) {
            return Some(t);
        }
        i = i + 1;
    }
    None
}

/// The first http(s) URL among the whitespace-separated tokens of the
/// subject and then of the description, or a note that there is none.
pub fn first_url(subject: &str, description: &str) -> (url: String)
    ensures
        url@ == first_url_text(subject@, description@),
{
    let in_subject = runs_exec(&chars_of(subject), TokenClass::NotWhiteSpace);
    let in_description = runs_exec(&chars_of(description), TokenClass::NotWhiteSpace);
    proof {
        lemma_first_url_among_concat(in_subject.deep_view(), in_description.deep_view());
    }
    if let Some(url) = first_url_in_tokens(&in_subject) {
        return string_of(&url);
    }
    if let Some(url) = first_url_in_tokens(&in_description) {
        return string_of(&url);
    }
    String::from_str("（URLの記載なし）")
}

/// Adding the addresses of two token lists in a row adds those of the first,
/// then those of the second.
pub proof fn lemma_add_distinct_concat(
    found: Seq<Seq<char>>,
    a: Seq<Seq<char>>,
    b: Seq<Seq<char>>,
)
    ensures
        add_distinct_addresses(found, a + b) == add_distinct_addresses(
            add_distinct_addresses(found, a),
            b,
        ),
    decreases a.len(),
{
    if a.len() > 0 {
        assert((a + b).drop_first() =~= a.drop_first() + b);
        let t = a[0];
        let next = if is_ipv4_token(t) && !found.contains(t) {
            found.push(t)
        } else {
            found
        };
        lemma_add_distinct_concat(next, a.drop_first(), b);
    } else {
        assert(a + b =~= b);
    }
}

/// Whether `t[from..to]` parses as a `u8`, for `t` made of digits and dots.
fn is_u8_decimal_exec(t: &Vec<char>, from: usize, to: usize) -> (r: bool)
    requires
        from <= to <= t@.len(),
    ensures
        r == is_u8_decimal(t@.subrange(from as int, to as int)),
{
    if from == to {
        return false;
    }
    let mut value: u32 = 0;
    let mut k = from;
    assert(t@.subrange(from as int, from as int) =~= Seq::<char>::empty());
    while k < to
        invariant
            from < to <= t@.len(),
            from <= k <= to,
            forall|m: int| from <= m < k ==> is_ascii_digit(#[trigger] t@[m]),
            decimal_value(t@.subrange(from as int, k as int)) >= 0,
            value <= 256,
            value < 256 ==> value == decimal_value(t@.subrange(from as int, k as int)),
            value == 256 ==> decimal_value(t@.subrange(from as int, k as int)) >= 256,
        decreases to - k,
    {
        let c = t[k];
        if !('0' <= c && c <= '9') {
            assert(!is_ascii_digit(t@.subrange(from as int, to as int)[k - from]));
            return false;
        }
        let digit = (c as u32) - ('0' as u32);
        proof {
            lemma_decimal_value_push(t@.subrange(from as int, k as int), c);
            assert(t@.subrange(from as int, k as int).push(c) =~= t@.subrange(from as int, k + 1));
        }
        if value >= 256 {
            assert(decimal_value(t@.subrange(from as int, k + 1)) >= 256) by (nonlinear_arith)
                requires
                    decimal_value(t@.subrange(from as int, k + 1)) == decimal_value(
                        t@.subrange(from as int, k as int),
                    ) * 10 + digit,
                    decimal_value(t@.subrange(from as int, k as int)) >= 256,
                    digit >= 0,
            ;
            value = 256;
        } else {
            let next = value * 10 + digit;
            value = if next >= 256 {
                256
            } else {
                next
            };
        }
        k = k + 1;
    }
    proof {
        assert forall|m: int| 0 <= m < to - from implies is_ascii_digit(
            #[trigger] t@.subrange(from as int, to as int)[m],
        ) by {
            assert(t@.subrange(from as int, to as int)[m] == t@[from + m]);
        }
    }
    value <= 255
}

/// The positions of the dots in `t`.
fn dot_positions_exec(t: &Vec<char>) -> (r: Vec<usize>)
    ensures
        r@.len() == dots_before(t@, t@.len() as int).len(),
        forall|k: int| 0 <= k < r@.len() ==> r@[k] as int == dots_before(t@, t@.len() as int)[k],
{
    let mut r: Vec<usize> = Vec::new();
    let mut i: usize = 0;
    while i < t.len()
        invariant
            i <= t@.len(),
            r@.len() == dots_before(t@, i as int).len(),
            forall|k: int| 0 <= k < r@.len() ==> r@[k] as int == dots_before(t@, i as int)[k],
        decreases t@.len() - i,
    {
        if t[i] == '.' {
            r.push(i);
        }
        i = i + 1;
    }
    r
}

/// The dot positions of a token before `n` lie before `n`, in increasing
/// order.
pub proof fn lemma_dots_before_bounds(t: Seq<char>, n: int)
    requires
        0 <= n <= t.len(),
    ensures
        forall|k: int|
            0 <= k < dots_before(t, n).len() ==> 0 <= #[trigger] dots_before(t, n)[k] < n,
        forall|k: int, l: int|
            0 <= k < l < dots_before(t, n).len() ==> dots_before(t, n)[k] < dots_before(t, n)[l],
    decreases n,
{
    if n > 0 {
        lemma_dots_before_bounds(t, n - 1);
        let prev = dots_before(t, n - 1);
        let cur = dots_before(t, n);
        if t[n - 1] == '.' {
            assert forall|k: int| 0 <= k < cur.len() implies 0 <= #[trigger] cur[k] < n by {
                if k < prev.len() {
                    assert(cur[k] == prev[k]);
                }
            }
            assert forall|k: int, l: int| 0 <= k < l < cur.len() implies cur[k] < cur[l] by {
                assert(cur[k] == prev[k]);
                if l < prev.len() {
                    assert(cur[l] == prev[l]);
                }
            }
        }
    }
}

fn is_ipv4_token_exec(t: &Vec<char>) -> (r: bool)
    ensures
        r == is_ipv4_token(t@),
{
    let tl = t.len();
    let d = dot_positions_exec(t);
    proof {
        lemma_dots_before_bounds(t@, t@.len() as int);
    }
    if d.len() != 3 {
        return false;
    }
    is_u8_decimal_exec(t, 0, d[0]) && is_u8_decimal_exec(t, d[0] + 1, d[1]) && is_u8_decimal_exec(
        t,
        d[1] + 1,
        d[2],
    ) && is_u8_decimal_exec(t, d[2] + 1, t.len())
}

fn contains_token(found: &Vec<Vec<char>>, t: &Vec<char>) -> (r: bool)
    ensures
        r == found.deep_view().contains(t@),
{
    let mut i: usize = 0;
    while i < found.len()
        invariant
            i <= found@.len(),
            forall|k: int| 0 <= k < i ==> found.deep_view()[k] != t@,
        decreases found@.len() - i,
    {
        assert(found.deep_view()[i as int] == found@[i as int]@);
        if seq_equal(&found[i], t) {
            assert(found.deep_view()[i as int] == t@);
            return true;
        }
        i = i + 1;
    }
    false
}

fn add_addresses(found: &mut Vec<Vec<char>>, tokens: &Vec<Vec<char>>)
    ensures
        final(found).deep_view() == add_distinct_addresses(old(found).deep_view(), tokens.deep_view()),
{
    let ghost all = tokens.deep_view();
    let ghost goal = add_distinct_addresses(old(found).deep_view(), all);
    let mut i: usize = 0;
    assert(all.subrange(0, all.len() as int) =~= all);
    while i < tokens.len()
        invariant
            i <= tokens@.len(),
            tokens.deep_view() == all,
            goal == add_distinct_addresses(found.deep_view(), all.subrange(i as int, all.len() as int)),
        decreases tokens@.len() - i,
    {
        let t = &tokens[i];
        proof {
            assert(t@ == all[i as int]);
            assert(all.subrange(i as int, all.len() as int)[0] == all[i as int]);
            assert(all.subrange(i as int, all.len() as int).drop_first() =~= all.subrange(
                i + 1,
                all.len() as int,
            ));
        }
        if is_ipv4_token_exec(t) && !contains_token(found, t) {
            let ghost before = found.deep_view();
            let copy = t.clone();
            assert(copy.deep_view() =~= t@);
            found.push(copy);
            assert(found.deep_view() =~= before.push(t@));
        }
        i = i + 1;
    }
}

pub fn join_lines_exec(lines: &Vec<Vec<char>>) -> (r: Vec<char>)
    ensures
        r@ == join_lines(lines.deep_view()),
{
    let ghost all = lines.deep_view();
    let mut r: Vec<char> = Vec::new();
    let mut i: usize = 0;
    assert(all.subrange(0, 0) =~= Seq::<Seq<char>>::empty());
    while i < lines.len()
        invariant
            i <= lines@.len(),
            lines.deep_view() == all,
            r@ == join_lines(all.subrange(0, i as int)),
        decreases lines@.len() - i,
    {
        let line = &lines[i];
        if i > 0 {
            r.push('\n');
        }
        let mut k: usize = 0;
        let ghost start = r@;
        while k < line.len()
            invariant
                k <= line@.len(),
                r@ == start + line@.subrange(0, k as int),
            decreases line@.len() - k,
        {
            r.push(line[k]);
            k = k + 1;
            assert(r@ =~= start + line@.subrange(0, k as int));
        }
        proof {
            assert(line@ == all[i as int]);
            assert(all.subrange(0, i + 1).drop_last() =~= all.subrange(0, i as int));
            assert(line@.subrange(0, line@.len() as int) =~= line@);
            if i == 0 {
                assert(start =~= Seq::<char>::empty());
                assert(r@ =~= line@);
            }
        }
        i = i + 1;
    }
    assert(all.subrange(0, all.len() as int) =~= all);
    r
}

/// The dotted-quad IPv4 addresses written in the subject and then in the
/// description, each once, one per line.
pub fn extract_ipv4_addresses(subject: &str, description: &str) -> (text: String)
    ensures
        text@ == ipv4_addresses_text(subject@, description@),
{
    let in_subject = runs_exec(&chars_of(subject), TokenClass::DigitOrDot);
    let in_description = runs_exec(&chars_of(description), TokenClass::DigitOrDot);
    let mut found: Vec<Vec<char>> = Vec::new();
    assert(found.deep_view() =~= Seq::<Seq<char>>::empty());
    add_addresses(&mut found, &in_subject);
    add_addresses(&mut found, &in_description);
    proof {
        lemma_add_distinct_concat(Seq::empty(), in_subject.deep_view(), in_description.deep_view());
    }
    string_of(&join_lines_exec(&found))
}

/// Whether an author field value carries no information.
pub fn is_unfilled_author_value(value: &str) -> (unfilled: bool)
    ensures
        unfilled == is_unfilled(value@),
{
    let v = chars_of(value);
    if v.len() == 0 {
        return true;
    }
    let mut i: usize = 0;
    let mut any_alphanumeric = false;
    while i < v.len()
        invariant
            i <= v@.len(),
            v@ == value@,
            any_alphanumeric == exists|k: int| 0 <= k < i && unicode_alphanumeric(#[trigger] v@[k]),
        decreases v@.len() - i,
    {
        if char_is_alphanumeric(v[i]) {
            any_alphanumeric = true;
        }
        i = i + 1;
    }
    if !any_alphanumeric {
        return true;
    }
    let normalized = ascii_lowercase_of(&v);
    let markers: [&str; 20] = [
        "なし",
        "無し",
        "不明",
        "未回答",
        "未記入",
        "未入力",
        "無回答",
        "空欄",
        "回答なし",
        "回答無し",
        "記載なし",
        "記載無し",
        "該当なし",
        "該当無し",
        "特になし",
        "特に無し",
        "n/a",
        "na",
        "none",
        "unknown",
    ];
    assert(forall|k: int| 0 <= k < 20 ==> #[trigger] markers@[k]@ == unfilled_markers()[k]);
    let mut k: usize = 0;
    while k < 20
        invariant
            k <= 20,
            normalized@ == ascii_lowercase(value@),
            forall|m: int| 0 <= m < 20 ==> #[trigger] markers@[m]@ == unfilled_markers()[m],
            forall|m: int| 0 <= m < k ==> unfilled_markers()[m] != normalized@,
        decreases 20 - k,
    {
        if equals_str(&normalized, markers[k]) {
            assert(unfilled_markers()[k as int] == normalized@);
            return true;
        }
        k = k + 1;
    }
    assert(!unfilled_markers().contains(normalized@));
    false
}

proof fn lemma_first_url_among_first(tokens: Seq<Seq<char>>, k: int)
    requires
        0 <= k < tokens.len(),
        url_in_token(tokens[k]) is Some,
        forall|j: int| 0 <= j < k ==> url_in_token(#[trigger] tokens[j]) is None,
    ensures
        first_url_among(tokens) == url_in_token(tokens[k]),
    decreases k,
{
    if k > 0 {
        let rest = tokens.drop_first();
        assert(url_in_token(tokens[0]) is None);
        assert(rest[k - 1] == tokens[k]);
        assert forall|j: int| 0 <= j < k - 1 implies url_in_token(#[trigger] rest[j]) is None by {
            assert(rest[j] == tokens[j + 1]);
        }
        lemma_first_url_among_first(rest, k - 1);
    }
}

proof fn lemma_first_url_among_none(tokens: Seq<Seq<char>>)
    requires
        forall|j: int| 0 <= j < tokens.len() ==> url_in_token(#[trigger] tokens[j]) is None,
    ensures
        first_url_among(tokens) is None,
    decreases tokens.len(),
{
    if tokens.len() > 0 {
        let rest = tokens.drop_first();
        assert(url_in_token(tokens[0]) is None);
        assert forall|j: int| 0 <= j < rest.len() implies url_in_token(#[trigger] rest[j]) is None by {
            assert(rest[j] == tokens[j + 1]);
        }
        lemma_first_url_among_none(rest);
    }
}

/// A token holds a URL when, stripped of the delimiters around it, it
/// starts with `https://` or `http://`; the URL is the stripped token.
pub proof fn lemma_url_in_token(token: Seq<char>)
    ensures
        url_in_token(token) is Some <==> (starts_with(
            trim_end_delimiters(trim_start_delimiters(token)),
            "https://"@,
        ) || starts_with(trim_end_delimiters(trim_start_delimiters(token)), "http://"@)),
        url_in_token(token) matches Some(url) ==> url == trim_end_delimiters(
            trim_start_delimiters(token),
        ),
{
}

/// The subject's URLs come before the description's: the URL given is the
/// first whitespace-separated token of the subject that holds one; only
/// when the subject holds none, the first of the description; and when
/// neither holds one, the placeholder text.
pub proof fn lemma_first_url_prefers_the_subject(subject: Seq<char>, description: Seq<char>)
    ensures
        forall|k: int|
            0 <= k < words(subject).len() && url_in_token(#[trigger] words(subject)[k]) is Some
                && (forall|j: int| 0 <= j < k ==> url_in_token(#[trigger] words(subject)[j]) is None)
                ==> first_url_text(subject, description) == url_in_token(words(subject)[k])->Some_0,
        forall|k: int|
            (forall|j: int| 0 <= j < words(subject).len() ==> url_in_token(
                #[trigger] words(subject)[j],
            ) is None) && 0 <= k < words(description).len() && url_in_token(
                #[trigger] words(description)[k],
            ) is Some && (forall|j: int|
                0 <= j < k ==> url_in_token(#[trigger] words(description)[j]) is None)
                ==> first_url_text(subject, description) == url_in_token(
                words(description)[k],
            )->Some_0,
        (forall|j: int| 0 <= j < words(subject).len() ==> url_in_token(
            #[trigger] words(subject)[j],
        ) is None) && (forall|j: int| 0 <= j < words(description).len() ==> url_in_token(
            #[trigger] words(description)[j],
        ) is None) ==> first_url_text(subject, description) == "（URLの記載なし）"@,
{
    let a = words(subject);
    let b = words(description);
    lemma_first_url_among_concat(a, b);
    assert forall|k: int|
        0 <= k < a.len() && url_in_token(#[trigger] a[k]) is Some && (forall|j: int|
            0 <= j < k ==> url_in_token(#[trigger] a[j]) is None) implies first_url_text(
        subject,
        description,
    ) == url_in_token(a[k])->Some_0 by {
        lemma_first_url_among_first(a, k);
    }
    if forall|j: int| 0 <= j < a.len() ==> url_in_token(#[trigger] a[j]) is None {
        lemma_first_url_among_none(a);
        assert forall|k: int|
            0 <= k < b.len() && url_in_token(#[trigger] b[k]) is Some && (forall|j: int|
                0 <= j < k ==> url_in_token(#[trigger] b[j]) is None) implies first_url_text(
            subject,
            description,
        ) == url_in_token(b[k])->Some_0 by {
            lemma_first_url_among_first(b, k);
        }
        if forall|j: int| 0 <= j < b.len() ==> url_in_token(#[trigger] b[j]) is None {
            lemma_first_url_among_none(b);
        }
    }
}

/// Stripping delimiters from the front removes exactly the delimiters that
/// the text starts with.
pub proof fn lemma_trim_start_delimiters(s: Seq<char>)
    ensures
        trim_start_delimiters(s).len() <= s.len(),
        trim_start_delimiters(s) == s.subrange(
            s.len() - trim_start_delimiters(s).len(),
            s.len() as int,
        ),
        forall|k: int|
            0 <= k < s.len() - trim_start_delimiters(s).len() ==> is_url_delimiter(#[trigger] s[k]),
        trim_start_delimiters(s).len() == 0 || !is_url_delimiter(trim_start_delimiters(s)[0]),
    decreases s.len(),
{
    if s.len() > 0 && is_url_delimiter(s[0]) {
        let rest = s.drop_first();
        lemma_trim_start_delimiters(rest);
        let t = trim_start_delimiters(s);
        assert(t =~= s.subrange(s.len() - t.len(), s.len() as int));
        assert forall|k: int| 0 <= k < s.len() - t.len() implies is_url_delimiter(#[trigger] s[k]) by {
            if k > 0 {
                assert(s[k] == rest[k - 1]);
            }
        }
    } else {
        assert(s =~= s.subrange(0, s.len() as int));
    }
}

/// Stripping delimiters from the back removes exactly the delimiters that
/// the text ends with.
pub proof fn lemma_trim_end_delimiters(s: Seq<char>)
    ensures
        trim_end_delimiters(s).len() <= s.len(),
        trim_end_delimiters(s) == s.subrange(0, trim_end_delimiters(s).len() as int),
        forall|k: int|
            trim_end_delimiters(s).len() <= k < s.len() ==> is_url_delimiter(#[trigger] s[k]),
        trim_end_delimiters(s).len() == 0 || !is_url_delimiter(trim_end_delimiters(s).last()),
    decreases s.len(),
{
    if s.len() > 0 && is_url_delimiter(s.last()) {
        let front = s.drop_last();
        lemma_trim_end_delimiters(front);
        let t = trim_end_delimiters(s);
        assert(t =~= s.subrange(0, t.len() as int));
        assert forall|k: int| t.len() <= k < s.len() implies is_url_delimiter(#[trigger] s[k]) by {
            if k < s.len() - 1 {
                assert(s[k] == front[k]);
            }
        }
    } else {
        assert(s =~= s.subrange(0, s.len() as int));
    }
}

/// The brackets, quotes and punctuation that may surround a URL in text:
/// `<>()[]{}"'`, `、`, `。`, `，` and `,`.
pub open spec fn wraps_urls(c: char) -> bool {
    c == '<' || c == '>' || c == '(' || c == ')' || c == '[' || c == ']' || c == '{' || c == '}'
        || c == '"' || c == '\'' || c == '、' || c == '。' || c == '，' || c == ','
}

proof fn lemma_trim_start_wrapped(pre: Seq<char>, rest: Seq<char>)
    requires
        forall|k: int| 0 <= k < pre.len() ==> wraps_urls(#[trigger] pre[k]),
        rest.len() > 0,
        !wraps_urls(rest[0]),
    ensures
        trim_start_delimiters(pre + rest) == rest,
    decreases pre.len(),
{
    if pre.len() > 0 {
        assert((pre + rest)[0] == pre[0]);
        assert((pre + rest).drop_first() =~= pre.drop_first() + rest);
        lemma_trim_start_wrapped(pre.drop_first(), rest);
    } else {
        assert(pre + rest =~= rest);
    }
}

proof fn lemma_trim_end_wrapped(body: Seq<char>, post: Seq<char>)
    requires
        forall|k: int| 0 <= k < post.len() ==> wraps_urls(#[trigger] post[k]),
        body.len() > 0,
        !wraps_urls(body.last()),
    ensures
        trim_end_delimiters(body + post) == body,
    decreases post.len(),
{
    if post.len() > 0 {
        assert((body + post).last() == post.last());
        assert((body + post).drop_last() =~= body + post.drop_last());
        lemma_trim_end_wrapped(body, post.drop_last());
    } else {
        assert(body + post =~= body);
    }
}

/// A URL wrapped in brackets, quotes or punctuation is found without them:
/// for a URL that starts with `https://` or `http://` and does not end with
/// such a character, the token made of it with any of them around it holds
/// exactly that URL.
pub proof fn lemma_wrapped_url_is_found(pre: Seq<char>, url: Seq<char>, post: Seq<char>)
    requires
        forall|k: int| 0 <= k < pre.len() ==> wraps_urls(#[trigger] pre[k]),
        forall|k: int| 0 <= k < post.len() ==> wraps_urls(#[trigger] post[k]),
        starts_with(url, "https://"@) || starts_with(url, "http://"@),
        !wraps_urls(url.last()),
    ensures
        url_in_token(pre + url + post) == Some(url),
{
    reveal_strlit("https://");
    reveal_strlit("http://");
    assert(url[0] == 'h') by {
        if starts_with(url, "https://"@) {
            assert(url.subrange(0, 8)[0] == url[0]);
        } else {
            assert(url.subrange(0, 7)[0] == url[0]);
        }
    }
    assert(pre + url + post =~= pre + (url + post));
    assert((url + post)[0] == url[0]);
    lemma_trim_start_wrapped(pre, url + post);
    lemma_trim_end_wrapped(url, post);
}

} // verus!
