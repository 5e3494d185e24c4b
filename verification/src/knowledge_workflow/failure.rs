//! What is kept and shown of a failed attempt.

use vstd::prelude::*;

use crate::knowledge_workflow::types::ErrorKind;
use crate::text::{
    ascii_lower, chars_of, contains, contains_text, copy_range, join, join_parts, lemma_line_len,
    lemma_word_len, line_len, lines, occurs_at, split_lines, split_words, starts_with,
    starts_with_text, string_of, to_ascii_lower, views, white_space, without_return, word_len, words,
};

verus! {

/// The kind of a failure, by the words of its lowered description.
pub open spec fn error_class(lower: Seq<char>) -> ErrorKind {
    if contains(lower, "private"@) || contains(lower, "私密"@) || contains(lower, "not allowed"@) {
        ErrorKind::Security
    } else if contains(lower, "api key"@) || contains(lower, "credential"@) || contains(
        lower,
        "401"@,
    ) || contains(lower, "未启用"@) {
        ErrorKind::Authentication
    } else if contains(lower, "valid resource json"@) || contains(lower, "valid article json"@)
        || contains(lower, "provider output"@) || contains(lower, "json object"@) || contains(
        lower,
        "schema"@,
    ) {
        ErrorKind::ProviderOutput
    } else if contains(lower, "timeout"@) || contains(lower, "429"@) || contains(lower, "http 5"@)
        || contains(lower, "connection"@) || contains(lower, "抓取失败"@) {
        ErrorKind::Transient
    } else if contains(lower, "不存在"@) || contains(lower, "not found"@) || contains(
        lower,
        "缺少"@,
    ) || contains(lower, "正文"@) {
        ErrorKind::Input
    } else {
        ErrorKind::Storage
    }
}

/// What the reader is told about a failure of this kind.
pub open spec fn class_message(kind: ErrorKind) -> Seq<char> {
    match kind {
        ErrorKind::Security => "该内容不能发送给 AI"@,
        ErrorKind::Authentication => "AI 配置或凭据不可用"@,
        ErrorKind::ProviderOutput => "AI 返回格式不正确"@,
        ErrorKind::Transient => "临时网络或 Provider 错误"@,
        ErrorKind::Input => "没有可处理的内容"@,
        _ => "知识处理结果保存失败"@,
    }
}

/// Classifies the full description of an error.
pub fn classify_error(description: &str) -> (r: (ErrorKind, &'static str))
    ensures
        r.0 == error_class(ascii_lower(description@)),
        r.1@ == class_message(r.0),
{
    let chars = chars_of(description);
    let detail = to_ascii_lower(&chars);
    if contains_text(&detail, "private") || contains_text(&detail, "私密") || contains_text(
        &detail,
        "not allowed",
    ) {
        (ErrorKind::Security, "该内容不能发送给 AI")
    } else if contains_text(&detail, "api key") || contains_text(&detail, "credential")
        || contains_text(&detail, "401") || contains_text(&detail, "未启用") {
        (ErrorKind::Authentication, "AI 配置或凭据不可用")
    } else if contains_text(&detail, "valid resource json") || contains_text(
        &detail,
        "valid article json",
    ) || contains_text(&detail, "provider output") || contains_text(&detail, "json object")
        || contains_text(&detail, "schema") {
        (ErrorKind::ProviderOutput, "AI 返回格式不正确")
    } else if contains_text(&detail, "timeout") || contains_text(&detail, "429") || contains_text(
        &detail,
        "http 5",
    ) || contains_text(&detail, "connection") || contains_text(&detail, "抓取失败") {
        (ErrorKind::Transient, "临时网络或 Provider 错误")
    } else if contains_text(&detail, "不存在") || contains_text(&detail, "not found")
        || contains_text(&detail, "缺少") || contains_text(&detail, "正文") {
        (ErrorKind::Input, "没有可处理的内容")
    } else {
        (ErrorKind::Storage, "知识处理结果保存失败")
    }
}

/// A line that names no credential.
pub open spec fn safe_line(line: Seq<char>) -> bool {
    let lower = ascii_lower(line);
    &&& !contains(lower, "authorization"@)
    &&& !contains(lower, "api_key"@)
    &&& !contains(lower, "api key="@)
    &&& !contains(lower, "credential="@)
}

pub open spec fn redacted(word: Seq<char>) -> Seq<char> {
    if starts_with(word, "sk-"@) {
        "[REDACTED]"@
    } else {
        word
    }
}

/// The words of the safe lines, keys replaced, with one space between each two.
pub open spec fn safe_text(detail: Seq<char>) -> Seq<char> {
    let kept = lines(detail).filter(|line: Seq<char>| safe_line(line));
    join(words(join(kept, "\n"@)).map_values(|word: Seq<char>| redacted(word)), " "@)
}

/// How many characters of a detail are kept.
pub const DETAIL_LIMIT: usize = 4096;

pub open spec fn prefix(s: Seq<char>, limit: int) -> Seq<char> {
    if s.len() <= limit {
        s
    } else {
        s.take(limit)
    }
}

/// What is stored of a technical detail.
pub open spec fn sanitized(detail: Seq<char>) -> Seq<char> {
    prefix(safe_text(detail), DETAIL_LIMIT as int)
}

fn is_safe_line(line: &[char]) -> (r: bool)
    ensures
        r == safe_line(line@),
{
    let lower = to_ascii_lower(line);
    !contains_text(&lower, "authorization") && !contains_text(&lower, "api_key") && !contains_text(
        &lower,
        "api key=",
    ) && !contains_text(&lower, "credential=")
}

fn keep_safe_lines(all: Vec<Vec<char>>) -> (r: Vec<Vec<char>>)
    ensures
        views(r@) == views(all@).filter(|line: Seq<char>| safe_line(line)),
{
    let mut r: Vec<Vec<char>> = Vec::new();
    let mut i: usize = 0;
    let ghost keep = |line: Seq<char>| safe_line(line);
    proof {
        reveal(Seq::filter);
    }
    while i < all.len()
        invariant
            i <= all.len(),
            keep == (|line: Seq<char>| safe_line(line)),
            views(r@) == views(all@).take(i as int).filter(keep),
        decreases all.len() - i,
    {
        proof {
            reveal(Seq::filter);
            assert(views(all@).take(i + 1).drop_last() =~= views(all@).take(i as int));
            assert(views(all@).take(i + 1).last() == all@[i as int]@);
        }
        let line = copy_range(&all[i], 0, all[i].len());
        proof {
            assert(line@ =~= all@[i as int]@);
        }
        if is_safe_line(&line) {
            proof {
                assert(views(r@.push(line)) =~= views(r@).push(line@));
            }
            r.push(line);
        }
        i += 1;
    }
    proof {
        assert(views(all@).take(all@.len() as int) =~= views(all@));
    }
    r
}

fn redact_words(all: Vec<Vec<char>>) -> (r: Vec<Vec<char>>)
    ensures
        views(r@) == views(all@).map_values(|word: Seq<char>| redacted(word)),
{
    let mut r: Vec<Vec<char>> = Vec::new();
    let mut i: usize = 0;
    while i < all.len()
        invariant
            i <= all.len(),
            r.len() == i,
            forall|k: int| 0 <= k < i ==> (#[trigger] r@[k])@ == redacted(all@[k]@),
        decreases all.len() - i,
    {
        if starts_with_text(&all[i], "sk-") {
            r.push(chars_of("[REDACTED]"));
        } else {
            let word = copy_range(&all[i], 0, all[i].len());
            proof {
                assert(word@ =~= all@[i as int]@);
            }
            r.push(word);
        }
        i += 1;
    }
    proof {
        assert(views(r@) =~= views(all@).map_values(|word: Seq<char>| redacted(word)));
    }
    r
}

/// Strips a detail of credentials and bounds its length.
pub fn sanitize_detail(detail: &str) -> (r: String)
    ensures
        r@ == sanitized(detail@),
{
    let chars = chars_of(detail);
    let kept = keep_safe_lines(split_lines(&chars));
    let joined = join_parts(&kept, "\n");
    let parts = redact_words(split_words(&joined));
    let safe = join_parts(&parts, " ");
    if safe.len() <= DETAIL_LIMIT {
        string_of(&safe)
    } else {
        let head = copy_range(&safe, 0, DETAIL_LIMIT);
        proof {
            assert(head@ =~= safe@.take(DETAIL_LIMIT as int));
        }
        string_of(&head)
    }
}

/// Position `i` of `s` is where a word may begin.
pub open spec fn word_boundary(s: Seq<char>, i: int) -> bool {
    i == 0 || (0 < i <= s.len() && white_space(s[i - 1]))
}

/// No word of `s` begins like a secret key.
pub open spec fn shows_no_key(s: Seq<char>) -> bool {
    forall|i: int| word_boundary(s, i) ==> !#[trigger] occurs_at(s, "sk-"@, i)
}

proof fn lemma_words_have_no_space(s: Seq<char>)
    ensures
        forall|k: int, c: int|
            0 <= k < words(s).len() && 0 <= c < words(s)[k].len() ==> !white_space(
                #[trigger] words(s)[k][c],
            ),
    decreases s.len(),
{
    if s.len() > 0 {
        lemma_word_len(s);
        let n = word_len(s) as int;
        if n == 0 {
            lemma_words_have_no_space(s.skip(1));
            assert(words(s) == words(s.skip(1)));
        } else {
            lemma_words_have_no_space(s.skip(n));
            assert forall|k: int, c: int|
                0 <= k < words(s).len() && 0 <= c < words(s)[k].len() implies !white_space(
                #[trigger] words(s)[k][c],
            ) by {
                if k == 0 {
                    assert(words(s)[0] == s.take(n));
                    assert(s.take(n)[c] == s[c]);
                } else {
                    assert(words(s)[k] == words(s.skip(n))[k - 1]);
                }
            }
        }
    } else {
        assert(words(s).len() == 0);
    }
}

proof fn lemma_join_shows_no_key(parts: Seq<Seq<char>>)
    requires
        forall|k: int| 0 <= k < parts.len() ==> !starts_with(#[trigger] parts[k], "sk-"@),
        forall|k: int, c: int|
            0 <= k < parts.len() && 0 <= c < parts[k].len() ==> !white_space(
                #[trigger] parts[k][c],
            ),
    ensures
        shows_no_key(join(parts, " "@)),
    decreases parts.len(),
{
    reveal_strlit("sk-");
    reveal_strlit(" ");
    let key = "sk-"@;
    let all = join(parts, " "@);
    if parts.len() == 0 {
    } else if parts.len() == 1 {
        assert forall|i: int| word_boundary(all, i) implies !#[trigger] occurs_at(all, key, i) by {
            assert(all == parts[0]);
            if i > 0 && occurs_at(all, key, i) {
                assert(!white_space(parts[0][i - 1]));
            }
        }
    } else {
        let front_parts = parts.drop_last();
        let front = join(front_parts, " "@);
        let last = parts.last();
        assert forall|k: int| 0 <= k < front_parts.len() implies !starts_with(
            #[trigger] front_parts[k],
            key,
        ) by {
            assert(front_parts[k] == parts[k]);
        }
        lemma_join_shows_no_key(front_parts);
        assert(all =~= front + " "@ + last);
        let gap = front.len() as int;
        assert forall|i: int| word_boundary(all, i) implies !#[trigger] occurs_at(all, key, i) by {
            if occurs_at(all, key, i) {
                assert(all.subrange(i, i + 3)[0] == 's');
                assert(all.subrange(i, i + 3)[1] == 'k');
                assert(all.subrange(i, i + 3)[2] == '-');
                assert(all[gap] == ' ');
                if i + 3 <= gap {
                    assert(front.subrange(i, i + 3) =~= all.subrange(i, i + 3));
                    assert(word_boundary(front, i)) by {
                        if i > 0 {
                            assert(front[i - 1] == all[i - 1]);
                        }
                    }
                    assert(occurs_at(front, key, i));
                } else if i > gap {
                    if i > gap + 1 {
                        assert(all[i - 1] == last[i - 1 - gap - 1]);
                        assert(!white_space(parts[parts.len() - 1][i - 1 - gap - 1]));
                    } else {
                        assert(last.subrange(0, 3) =~= all.subrange(i, i + 3));
                        assert(starts_with(parts[parts.len() - 1], key));
                    }
                }
            }
        }
    }
}

proof fn lemma_lines_split(x: Seq<char>, y: Seq<char>)
    ensures
        lines(x + "\n"@ + y) == lines(x + "\n"@) + lines(y),
        line_len(x) == x.len() ==> lines(x + "\n"@) == seq![without_return(x)],
    decreases x.len(),
{
    reveal_strlit("\n");
    let ended = x + "\n"@;
    let whole = ended + y;
    let n = line_len(x) as int;
    lemma_line_len(x);
    lemma_line_len(ended);
    lemma_line_len(whole);
    assert(ended[x.len() as int] == '\n');
    assert(whole[x.len() as int] == '\n');
    if n < x.len() {
        assert(ended[n] == '\n' && whole[n] == '\n');
    }
    assert(forall|k: int| 0 <= k < n ==> ended[k] == x[k] && whole[k] == x[k]);
    let m = line_len(ended) as int;
    let l = line_len(whole) as int;
    assert(m == n) by {
        if m < n {
            assert(x[m] == ended[m]);
        }
    }
    assert(l == n) by {
        if l < n {
            assert(x[l] == whole[l]);
        }
    }
    assert(ended.take(n) =~= x.take(n));
    assert(whole.take(n) =~= x.take(n));
    if n < x.len() {
        let rest = x.skip(n + 1);
        lemma_lines_split(rest, y);
        assert(ended.skip(n + 1) =~= rest + "\n"@);
        assert(whole.skip(n + 1) =~= rest + "\n"@ + y);
        let first = seq![without_return(x.take(n))];
        assert(first + (lines(rest + "\n"@) + lines(y)) =~= first + lines(rest + "\n"@) + lines(y));
    } else {
        assert(x.take(n) =~= x);
        assert(ended.skip(n + 1) =~= Seq::<char>::empty());
        assert(whole.skip(n + 1) =~= y);
        assert(lines(Seq::<char>::empty()) =~= Seq::<Seq<char>>::empty());
        assert(lines(ended) =~= seq![without_return(x)]);
        assert(lines(whole) =~= seq![without_return(x)] + lines(y));
    }
}

proof fn lemma_marker_before_return(s: Seq<char>, marker: Seq<char>)
    requires
        s.len() > 0,
        s.last() == '\r',
        marker.len() > 0,
        marker.last() != '\r',
        contains(ascii_lower(s), marker),
    ensures
        contains(ascii_lower(s.drop_last()), marker),
{
    let all = ascii_lower(s);
    let head = ascii_lower(s.drop_last());
    let i = choose|i: int| occurs_at(all, marker, i);
    let n = marker.len() as int;
    assert(all.subrange(i, i + n)[n - 1] == all[i + n - 1]);
    assert(all[s.len() - 1] == '\r');
    assert(head.subrange(i, i + n) =~= marker) by {
        assert forall|k: int| 0 <= k < n implies head[i + k] == marker[k] by {
            assert(all.subrange(i, i + n)[k] == all[i + k]);
        }
    }
    assert(occurs_at(head, marker, i));
}

proof fn lemma_unsafe_without_return(s: Seq<char>)
    requires
        !safe_line(s),
    ensures
        !safe_line(without_return(s)),
{
    reveal_strlit("authorization");
    reveal_strlit("api_key");
    reveal_strlit("api key=");
    reveal_strlit("credential=");
    if s.len() > 0 && s.last() == '\r' {
        if contains(ascii_lower(s), "authorization"@) {
            lemma_marker_before_return(s, "authorization"@);
        } else if contains(ascii_lower(s), "api_key"@) {
            lemma_marker_before_return(s, "api_key"@);
        } else if contains(ascii_lower(s), "api key="@) {
            lemma_marker_before_return(s, "api key="@);
        } else {
            lemma_marker_before_return(s, "credential="@);
        }
    }
}

/// Nothing of a line that holds a credential is stored: the detail is the same
/// as without that line.
pub proof fn credential_lines_leave_no_trace(a: Seq<char>, s: Seq<char>, b: Seq<char>)
    requires
        !s.contains('\n'),
        !safe_line(s),
    ensures
        sanitized(a + "\n"@ + s + "\n"@ + b) == sanitized(a + "\n"@ + b),
{
    let keep = |line: Seq<char>| safe_line(line);
    let inner = s + "\n"@ + b;
    lemma_line_len(s);
    assert(line_len(s) == s.len()) by {
        if line_len(s) < s.len() {
            assert(s.contains(s[line_len(s) as int]));
        }
    }
    lemma_lines_split(s, b);
    lemma_lines_split(a, inner);
    lemma_lines_split(a, b);
    lemma_unsafe_without_return(s);
    assert(a + "\n"@ + s + "\n"@ + b =~= a + "\n"@ + inner);
    let before = lines(a + "\n"@);
    let line = seq![without_return(s)];
    Seq::filter_distributes_over_add(before, line + lines(b), keep);
    Seq::filter_distributes_over_add(line, lines(b), keep);
    Seq::filter_distributes_over_add(before, lines(b), keep);
    assert(line.filter(keep) =~= Seq::<Seq<char>>::empty()) by {
        reveal_with_fuel(Seq::filter, 2);
        assert(line.drop_last() =~= Seq::<Seq<char>>::empty());
        assert(line.last() == without_return(s));
    }
    assert(before.filter(keep) + (line.filter(keep) + lines(b).filter(keep)) =~= before.filter(keep)
        + lines(b).filter(keep));
}

pub open spec fn breaks_line(c: char) -> bool {
    c == '\n' || c == '\r'
}

proof fn lemma_join_is_one_line(parts: Seq<Seq<char>>)
    requires
        forall|k: int, c: int|
            0 <= k < parts.len() && 0 <= c < parts[k].len() ==> !white_space(
                #[trigger] parts[k][c],
            ),
    ensures
        forall|i: int|
            0 <= i < join(parts, " "@).len() ==> !breaks_line(#[trigger] join(parts, " "@)[i]),
    decreases parts.len(),
{
    reveal_strlit(" ");
    let all = join(parts, " "@);
    if parts.len() > 0 {
        let last = parts.len() - 1;
        let front_parts = parts.drop_last();
        let front = join(front_parts, " "@);
        assert forall|k: int, c: int|
            0 <= k < front_parts.len() && 0 <= c < front_parts[k].len() implies !white_space(
            #[trigger] front_parts[k][c],
        ) by {
            assert(parts[k][c] == front_parts[k][c]);
        }
        lemma_join_is_one_line(front_parts);
        assert forall|i: int| 0 <= i < all.len() implies !breaks_line(#[trigger] all[i]) by {
            let gap: int = if last == 0 {
                0
            } else {
                (front.len() + 1) as int
            };
            if i >= gap {
                assert(all[i] == parts[last][i - gap]);
            } else if i < front.len() {
                assert(all[i] == front[i]);
            }
        }
    }
}

/// No stored detail holds a line break.
pub proof fn stored_details_are_one_line(detail: Seq<char>)
    ensures
        forall|i: int| 0 <= i < sanitized(detail).len() ==> !breaks_line(#[trigger] sanitized(detail)[i]),
{
    let kept = lines(detail).filter(|line: Seq<char>| safe_line(line));
    let plain = words(join(kept, "\n"@));
    let parts = plain.map_values(|word: Seq<char>| redacted(word));
    lemma_words_have_no_space(join(kept, "\n"@));
    reveal_strlit("[REDACTED]");
    assert forall|k: int, c: int|
        0 <= k < parts.len() && 0 <= c < parts[k].len() implies !white_space(
        #[trigger] parts[k][c],
    ) by {
        if !starts_with(plain[k], "sk-"@) {
            assert(!white_space(plain[k][c]));
        }
    }
    lemma_join_is_one_line(parts);
}

/// A stored detail is bounded, and no word in it begins like a secret key.
pub proof fn stored_details_show_no_key(detail: Seq<char>)
    ensures
        sanitized(detail).len() <= DETAIL_LIMIT,
        shows_no_key(sanitized(detail)),
{
    let kept = lines(detail).filter(|line: Seq<char>| safe_line(line));
    let plain = words(join(kept, "\n"@));
    let parts = plain.map_values(|word: Seq<char>| redacted(word));
    let whole = join(parts, " "@);
    let key = "sk-"@;
    lemma_words_have_no_space(join(kept, "\n"@));
    reveal_strlit("sk-");
    reveal_strlit("[REDACTED]");
    assert forall|k: int| 0 <= k < parts.len() implies !starts_with(#[trigger] parts[k], key) by {
        if starts_with(plain[k], key) {
            assert("[REDACTED]"@.subrange(0, 3)[0] == '[');
        }
    }
    assert forall|k: int, c: int|
        0 <= k < parts.len() && 0 <= c < parts[k].len() implies !white_space(
        #[trigger] parts[k][c],
    ) by {
        if !starts_with(plain[k], key) {
            assert(!white_space(plain[k][c]));
        }
    }
    lemma_join_shows_no_key(parts);
    let stored = sanitized(detail);
    assert forall|i: int| word_boundary(stored, i) implies !#[trigger] occurs_at(
        stored,
        key,
        i,
    ) by {
        if occurs_at(stored, key, i) {
            assert(whole.subrange(i, i + 3) =~= stored.subrange(i, i + 3));
            assert(occurs_at(whole, key, i));
            assert(word_boundary(whole, i));
        }
    }
}

/// A failure is classed by the words of its description, without regard to the
/// case of letters: content that must stay private first, then credentials,
/// then what the provider wrote, then what passes, then what is missing. What
/// says none of this could not be stored.
pub proof fn failures_are_classed_by_their_words(description: Seq<char>)
    ensures
        ({
            let low = ascii_lower(description);
            let kind = error_class(low);
            let private = contains(low, "private"@) || contains(low, "私密"@) || contains(
                low,
                "not allowed"@,
            );
            let credential = contains(low, "api key"@) || contains(low, "credential"@) || contains(
                low,
                "401"@,
            ) || contains(low, "未启用"@);
            let output = contains(low, "valid resource json"@) || contains(
                low,
                "valid article json"@,
            ) || contains(low, "provider output"@) || contains(low, "json object"@) || contains(
                low,
                "schema"@,
            );
            let passing = contains(low, "timeout"@) || contains(low, "429"@) || contains(
                low,
                "http 5"@,
            ) || contains(low, "connection"@) || contains(low, "抓取失败"@);
            let missing = contains(low, "不存在"@) || contains(low, "not found"@) || contains(
                low,
                "缺少"@,
            ) || contains(low, "正文"@);
            &&& kind is Security <==> private
            &&& kind is Authentication <==> !private && credential
            &&& kind is ProviderOutput <==> !private && !credential && output
            &&& kind is Transient <==> !private && !credential && !output && passing
            &&& kind is Input <==> !private && !credential && !output && !passing && missing
            &&& kind is Storage <==> !private && !credential && !output && !passing && !missing
        }),
{
}

/// Each class of failure is told to the reader in words of its own.
pub proof fn classes_are_told_in_their_words(kind: ErrorKind)
    ensures
        kind is Security ==> class_message(kind) == "该内容不能发送给 AI"@,
        kind is Authentication ==> class_message(kind) == "AI 配置或凭据不可用"@,
        kind is ProviderOutput ==> class_message(kind) == "AI 返回格式不正确"@,
        kind is Transient ==> class_message(kind) == "临时网络或 Provider 错误"@,
        kind is Input ==> class_message(kind) == "没有可处理的内容"@,
        kind is Storage || kind is Interrupted ==> class_message(kind) == "知识处理结果保存失败"@,
{
}

/// A line is kept out of the stored detail exactly where it speaks of an
/// authorization, a key or a credential, in letters of either case.
pub proof fn lines_with_credentials_are_unsafe(line: Seq<char>)
    ensures
        !safe_line(line) <==> contains(ascii_lower(line), "authorization"@) || contains(
            ascii_lower(line),
            "api_key"@,
        ) || contains(ascii_lower(line), "api key="@) || contains(
            ascii_lower(line),
            "credential="@,
        ),
{
}

/// A detail without credentials is stored as its words, with single blanks
/// between them, up to 4096 characters; only words that look like keys are
/// replaced.
pub proof fn harmless_details_keep_their_words(detail: Seq<char>)
    requires
        forall|k: int| 0 <= k < lines(detail).len() ==> safe_line(#[trigger] lines(detail)[k]),
    ensures
        ({
            let said = words(join(lines(detail), "\n"@));
            let shown = Seq::new(
                said.len(),
                |k: int|
                    if starts_with(said[k], "sk-"@) {
                        "[REDACTED]"@
                    } else {
                        said[k]
                    },
            );
            let text = join(shown, " "@);
            sanitized(detail) == (if text.len() <= 4096 {
                text
            } else {
                text.take(4096)
            })
        }),
{
    let all = lines(detail);
    let keep = |line: Seq<char>| safe_line(line);
    lemma_all_kept(all, keep);
    let said = words(join(all, "\n"@));
    let shown = Seq::new(
        said.len(),
        |k: int|
            if starts_with(said[k], "sk-"@) {
                "[REDACTED]"@
            } else {
                said[k]
            },
    );
    assert(said.map_values(|word: Seq<char>| redacted(word)) =~= shown);
}

proof fn lemma_all_kept(all: Seq<Seq<char>>, keep: spec_fn(Seq<char>) -> bool)
    requires
        forall|k: int| 0 <= k < all.len() ==> keep(#[trigger] all[k]),
    ensures
        all.filter(keep) == all,
    decreases all.len(),
{
    reveal(Seq::filter);
    if all.len() > 0 {
        let rest = all.drop_last();
        assert forall|k: int| 0 <= k < rest.len() implies keep(#[trigger] rest[k]) by {
            assert(rest[k] == all[k]);
        }
        lemma_all_kept(rest, keep);
        assert(keep(all[all.len() - 1]));
        assert(rest.push(all.last()) =~= all);
    }
}

} // verus!
