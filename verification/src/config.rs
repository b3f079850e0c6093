//! The Codex configuration file: whether it selects file-based credential
//! storage, and how `init` makes it do so.
use vstd::prelude::*;
use crate::text::{
    after_char, append_chars, append_range, append_str, push_char, back_spaces, before_char, chars_of, find_char, find_in, lines, skip_spaces,
    split_lines, starts_with, strip_cr, trim, trim_end, trim_matches, trim_start, is_space,
    line_scan, lemma_find_char, lemma_find_char_at,
};

verus! {

/// The configuration key that selects where Codex keeps credentials.
pub const CREDENTIAL_SETTING: &'static str = "cli_auth_credentials_store";

/// A (left-trimmed) line that assigns the credential setting: the key, then
/// optional whitespace, then `=`.
pub open spec fn is_assignment(line: Seq<char>) -> bool {
    &&& starts_with(line, CREDENTIAL_SETTING@)
    &&& starts_with(trim_start(line.skip(CREDENTIAL_SETTING@.len() as int)), "="@)
}

/// A line that opens a TOML table: its first non-blank character is `[`.
pub open spec fn opens_table(line: Seq<char>) -> bool {
    starts_with(trim_start(line), "["@)
}

/// Line `i` assigns the credential setting at the top level: no line up to
/// and including it opens a table.
pub open spec fn root_assignment_at(ls: Seq<Seq<char>>, i: int) -> bool {
    &&& 0 <= i < ls.len()
    &&& is_assignment(trim_start(ls[i]))
    &&& forall|j: int| 0 <= j <= i ==> !opens_table(#[trigger] ls[j])
}

/// Some top-level line assigns the credential setting.
pub open spec fn has_root_assignment(ls: Seq<Seq<char>>) -> bool {
    exists|i: int| root_assignment_at(ls, i)
}

/// The value of an assignment line: the text after the first `=` and before
/// the first `#`, trimmed, without surrounding quotes.
pub open spec fn assigned_value(line: Seq<char>) -> Seq<char> {
    let rest = match after_char(line, '=') {
        Some(r) => r,
        None => Seq::empty(),
    };
    trim_matches(trim(before_char(rest, '#')), '"')
}

/// The first top-level assignment of the credential setting selects `file`.
pub open spec fn file_credentials(config: Seq<char>) -> bool {
    let ls = lines(config);
    exists|i: int|
        #![trigger root_assignment_at(ls, i)]
        root_assignment_at(ls, i) && (forall|j: int| 0 <= j < i ==> !root_assignment_at(ls, j))
            && assigned_value(trim_start(ls[i])) == "file"@
}

/// The line `init` writes for the credential setting, keeping the comment
/// of the line it replaces.
pub open spec fn replacement(line: Seq<char>) -> Seq<char> {
    CREDENTIAL_SETTING@ + " = \"file\""@ + match after_char(line, '#') {
        Some(comment) => " #"@ + comment,
        None => Seq::empty(),
    }
}

/// How line `i` comes out of `init`, with its line break.
pub open spec fn rendered_line(ls: Seq<Seq<char>>, i: int) -> Seq<char> {
    if root_assignment_at(ls, i) {
        replacement(ls[i]).push('\n')
    } else {
        ls[i].push('\n')
    }
}

/// The first `n` lines as `init` writes them.
pub open spec fn rendered(ls: Seq<Seq<char>>, n: int) -> Seq<char>
    decreases n,
{
    if n <= 0 {
        Seq::empty()
    } else {
        rendered(ls, n - 1) + rendered_line(ls, n - 1)
    }
}

/// The configuration text after `init`: each top-level assignment of the
/// credential setting replaced, or, where there is none, one added as the
/// first line; every line ends with a line break.
pub open spec fn configured(config: Seq<char>) -> Seq<char> {
    let ls = lines(config);
    let body = rendered(ls, ls.len() as int);
    if has_root_assignment(ls) {
        body
    } else {
        replacement(Seq::empty()).push('\n') + body
    }
}

/// Whether `v[from..to]` assigns the credential setting.
fn assignment_in(v: &Vec<char>, from: usize, to: usize) -> (r: bool)
    requires
        from <= to <= v@.len(),
    ensures
        r == is_assignment(v@.subrange(from as int, to as int)),
{
    let key = chars_of(CREDENTIAL_SETTING);
    let n = key.len();
    if to - from < n {
        return false;
    }
    let ghost s = v@.subrange(from as int, to as int);
    let mut i: usize = 0;
    while i < n
        invariant
            key@ == CREDENTIAL_SETTING@,
            n == key@.len(),
            from + n <= to <= v@.len(),
            s == v@.subrange(from as int, to as int),
            i <= n,
            forall|j: int| 0 <= j < i ==> s[j] == key@[j],
        decreases n - i,
    {
        if v[from + i] != key[i] {
            assert(s.take(n as int)[i as int] != key@[i as int]);
            return false;
        }
        i = i + 1;
    }
    assert(s.take(n as int) =~= key@);
    let k = skip_spaces(v, from + n, to);
    assert(s.skip(n as int) == v@.subrange(from + n, to as int));
    let r = k < to && v[k] == '=';
    proof {
        reveal_strlit("=");
        assert("="@ =~= seq!['=']);
        let t = v@.subrange(k as int, to as int);
        if k < to {
            assert(t[0] == v@[k as int]);
            assert(t.take(1) =~= seq![t[0]]);
            if r {
                assert(t.take(1) =~= "="@);
            } else {
                assert(t.take(1)[0] != "="@[0]);
            }
        }
        assert(r == starts_with(t, "="@));
        assert(t == trim_start(s.skip(n as int)));
    }
    r
}

/// Whether `line` (already left-trimmed) assigns the credential setting.
pub fn is_credential_assignment(line: &str) -> (r: bool)
    ensures
        r == is_assignment(line@),
{
    let v = chars_of(line);
    let r = assignment_in(&v, 0, v.len());
    assert(v@.subrange(0, v@.len() as int) == v@);
    r
}

/// Whether `v[from..to]` opens a table.
fn opens_table_in(v: &Vec<char>, from: usize, to: usize) -> (r: bool)
    requires
        from <= to <= v@.len(),
    ensures
        r == opens_table(v@.subrange(from as int, to as int)),
{
    let k = skip_spaces(v, from, to);
    let r = k < to && v[k] == '[';
    proof {
        reveal_strlit("[");
        assert("["@ =~= seq!['[']);
        let t = v@.subrange(k as int, to as int);
        assert(t == trim_start(v@.subrange(from as int, to as int)));
        if k < to {
            assert(t[0] == v@[k as int]);
            assert(t.take(1) =~= seq![t[0]]);
            if r {
                assert(t.take(1) =~= "["@);
            } else {
                assert(t.take(1)[0] != "["@[0]);
            }
            assert(r == starts_with(t, "["@));
        } else {
            assert(t.len() == 0);
            assert(!starts_with(t, "["@));
        }
    }
    r
}

/// The facts about line `i` that the scans of the configuration need.
proof fn lemma_root_step(ls: Seq<Seq<char>>, i: int, in_table: bool)
    requires
        0 <= i < ls.len(),
        in_table == exists|j: int| 0 <= j < i && opens_table(#[trigger] ls[j]),
    ensures
        root_assignment_at(ls, i) <==> (!(in_table || opens_table(ls[i])) && is_assignment(
            trim_start(ls[i]),
        )),
        (in_table || opens_table(ls[i])) == exists|j: int|
            0 <= j < i + 1 && opens_table(#[trigger] ls[j]),
{
    if in_table {
        let j = choose|j: int| 0 <= j < i && opens_table(#[trigger] ls[j]);
        assert(!root_assignment_at(ls, i));
    }
    if opens_table(ls[i]) {
        assert(!root_assignment_at(ls, i));
    }
}

/// Whether `v[from..to]` is exactly `file`.
fn is_file_word(v: &Vec<char>, from: usize, to: usize) -> (r: bool)
    requires
        from <= to <= v@.len(),
    ensures
        r == (v@.subrange(from as int, to as int) == "file"@),
{
    proof {
        reveal_strlit("file");
        assert("file"@ =~= seq!['f', 'i', 'l', 'e']);
    }
    let r = to - from == 4 && v[from] == 'f' && v[from + 1] == 'i' && v[from + 2] == 'l' && v[from
        + 3] == 'e';
    proof {
        let s = v@.subrange(from as int, to as int);
        if r {
            assert(s =~= "file"@);
        }
        if s == "file"@ {
            assert(s[0] == v@[from as int]);
            assert(s[1] == v@[from + 1]);
            assert(s[2] == v@[from + 2]);
            assert(s[3] == v@[from + 3]);
        }
    }
    r
}

/// `v[from..to]` without surrounding quote characters.
fn trim_quotes(v: &Vec<char>, from: usize, to: usize) -> (r: (usize, usize))
    requires
        from <= to <= v@.len(),
    ensures
        from <= r.0 <= r.1 <= to,
        v@.subrange(r.0 as int, r.1 as int) == trim_matches(
            v@.subrange(from as int, to as int),
            '"',
        ),
{
    let mut a = from;
    let mut b = to;
    while a < b && (v[a] == '"' || v[b - 1] == '"')
        invariant
            from <= a <= b <= to <= v@.len(),
            trim_matches(v@.subrange(a as int, b as int), '"') == trim_matches(
                v@.subrange(from as int, to as int),
                '"',
            ),
        decreases b - a,
    {
        if v[a] == '"' {
            assert(v@.subrange(a as int, b as int).drop_first() == v@.subrange(a + 1, b as int));
            a = a + 1;
        } else {
            assert(v@.subrange(a as int, b as int).drop_last() == v@.subrange(a as int, b - 1));
            b = b - 1;
        }
    }
    (a, b)
}

/// Whether the assignment in `v[from..to]` selects `file`.
fn value_is_file(v: &Vec<char>, from: usize, to: usize) -> (r: bool)
    requires
        from <= to <= v@.len(),
    ensures
        r == (assigned_value(v@.subrange(from as int, to as int)) == "file"@),
{
    let ghost s = v@.subrange(from as int, to as int);
    let start = match find_in(v, from, to, '=') {
        Some(e) => e + 1,
        None => to,
    };
    proof {
        let rest = match after_char(s, '=') {
            Some(r) => r,
            None => Seq::<char>::empty(),
        };
        assert(rest == v@.subrange(start as int, to as int));
    }
    let end = match find_in(v, start, to, '#') {
        Some(h) => h,
        None => to,
    };
    assert(before_char(v@.subrange(start as int, to as int), '#') == v@.subrange(
        start as int,
        end as int,
    ));
    let a = skip_spaces(v, start, end);
    let b = back_spaces(v, a, end);
    assert(v@.subrange(a as int, end as int) == trim_start(v@.subrange(start as int, end as int)));
    let (qa, qb) = trim_quotes(v, a, b);
    is_file_word(v, qa, qb)
}

/// Whether the configuration selects file-based credential storage: its
/// first top-level `cli_auth_credentials_store` assignment has the value
/// `file`.
pub fn has_file_credentials(config: &str) -> (r: bool)
    ensures
        r == file_credentials(config@),
{
    let v = chars_of(config);
    let ls = split_lines(&v);
    let ghost sl = lines(config@);
    let mut in_table = false;
    let mut i: usize = 0;
    while i < ls.len()
        invariant
            sl == lines(config@),
            ls@.len() == sl.len(),
            forall|k: int| 0 <= k < ls@.len() ==> #[trigger] ls@[k]@ == sl[k],
            i <= ls@.len(),
            in_table == exists|j: int| 0 <= j < i && opens_table(#[trigger] sl[j]),
            forall|j: int| 0 <= j < i ==> !root_assignment_at(sl, j),
        decreases ls@.len() - i,
    {
        let line = &ls[i];
        assert(line@ == sl[i as int]);
        assert(line@.subrange(0, line@.len() as int) == line@);
        let start = skip_spaces(line, 0, line.len());
        let opens = opens_table_in(line, 0, line.len());
        proof {
            lemma_root_step(sl, i as int, in_table);
        }
        in_table = in_table || opens;
        if !in_table && assignment_in(line, start, line.len()) {
            let r = value_is_file(line, start, line.len());
            proof {
                assert(root_assignment_at(sl, i as int));
                if !r {
                    assert forall|k: int|
                        root_assignment_at(sl, k) && (forall|j: int|
                            0 <= j < k ==> !root_assignment_at(sl, j)) implies assigned_value(
                        trim_start(sl[k]),
                    ) != "file"@ by {
                        if k < i {
                        } else if k > i {
                        }
                    }
                }
            }
            return r;
        }
        i = i + 1;
    }
    false
}

/// The configuration text with file-based credential storage selected:
/// each top-level `cli_auth_credentials_store` assignment is replaced by
/// `cli_auth_credentials_store = "file"` (keeping its comment), or, where
/// there is none, that line is added first. Every line of the result ends
/// with a line break.
pub fn configure_file_credentials(config: &str) -> (r: String)
    ensures
        r@ == configured(config@),
{
    let v = chars_of(config);
    let ls = split_lines(&v);
    let ghost sl = lines(config@);
    let mut out = String::new();
    let mut replaced = false;
    let mut in_table = false;
    let mut i: usize = 0;
    while i < ls.len()
        invariant
            sl == lines(config@),
            ls@.len() == sl.len(),
            forall|k: int| 0 <= k < ls@.len() ==> #[trigger] ls@[k]@ == sl[k],
            i <= ls@.len(),
            in_table == exists|j: int| 0 <= j < i && opens_table(#[trigger] sl[j]),
            replaced == exists|j: int| 0 <= j < i && root_assignment_at(sl, j),
            out@ == rendered(sl, i as int),
        decreases ls@.len() - i,
    {
        let line = &ls[i];
        assert(line@ == sl[i as int]);
        assert(line@.subrange(0, line@.len() as int) == line@);
        let start = skip_spaces(line, 0, line.len());
        let opens = opens_table_in(line, 0, line.len());
        proof {
            lemma_root_step(sl, i as int, in_table);
        }
        in_table = in_table || opens;
        if !in_table && assignment_in(line, start, line.len()) {
            append_str(&mut out, CREDENTIAL_SETTING);
            append_str(&mut out, " = \"file\"");
            match find_in(line, 0, line.len(), '#') {
                Some(h) => {
                    append_str(&mut out, " #");
                    append_range(&mut out, line, h + 1, line.len());
                    assert(after_char(line@, '#') == Some(line@.subrange(h + 1, line@.len() as int)));
                },
                None => {},
            }
            push_char(&mut out, '\n');
            replaced = true;
            proof {
                assert(root_assignment_at(sl, i as int));
                assert(out@ == rendered(sl, i as int) + rendered_line(sl, i as int));
            }
        } else {
            append_chars(&mut out, line);
            push_char(&mut out, '\n');
            proof {
                assert(!root_assignment_at(sl, i as int));
                assert(out@ == rendered(sl, i as int) + rendered_line(sl, i as int));
            }
        }
        proof {
            assert(replaced == exists|j: int| 0 <= j < i + 1 && root_assignment_at(sl, j));
        }
        i = i + 1;
    }
    if replaced {
        out
    } else {
        let mut head = String::new();
        append_str(&mut head, CREDENTIAL_SETTING);
        append_str(&mut head, " = \"file\"");
        push_char(&mut head, '\n');
        append_str(&mut head, out.as_str());
        proof {
            assert(!has_root_assignment(sl));
            assert(replacement(Seq::empty()) == CREDENTIAL_SETTING@ + " = \"file\""@ + Seq::<char>::empty());
        }
        head
    }
}


/// No line break in `s`.
pub open spec fn single_line(s: Seq<char>) -> bool {
    forall|k: int| 0 <= k < s.len() ==> s[k] != '\n'
}

/// Line `i` as `init` writes it, without its line break.
pub open spec fn rendered_text(ls: Seq<Seq<char>>, i: int) -> Seq<char> {
    if root_assignment_at(ls, i) {
        replacement(ls[i])
    } else {
        ls[i]
    }
}

proof fn lemma_scan_single_line(a: Seq<char>, x: Seq<char>)
    requires
        line_scan(a).1.len() == 0,
        single_line(x),
    ensures
        line_scan(a + x) == (line_scan(a).0, x),
    decreases x.len(),
{
    if x.len() == 0 {
        assert(a + x =~= a);
        assert(x =~= Seq::<char>::empty());
    } else {
        assert((a + x).drop_last() =~= a + x.drop_last());
        lemma_scan_single_line(a, x.drop_last());
        assert(x.drop_last().push(x.last()) =~= x);
    }
}

proof fn lemma_scan_line(a: Seq<char>, x: Seq<char>)
    requires
        line_scan(a).1.len() == 0,
        single_line(x),
    ensures
        line_scan(a + x.push('\n')) == (line_scan(a).0.push(strip_cr(x)), Seq::<char>::empty()),
{
    lemma_scan_single_line(a, x);
    assert((a + x.push('\n')).drop_last() =~= a + x);
}

proof fn lemma_scan_single_lines(s: Seq<char>)
    ensures
        forall|i: int| 0 <= i < line_scan(s).0.len() ==> single_line(#[trigger] line_scan(s).0[i]),
        single_line(line_scan(s).1),
    decreases s.len(),
{
    if s.len() > 0 {
        lemma_scan_single_lines(s.drop_last());
    }
}

proof fn lemma_lines_single(s: Seq<char>)
    ensures
        forall|i: int| 0 <= i < lines(s).len() ==> single_line(#[trigger] lines(s)[i]),
{
    lemma_scan_single_lines(s);
}

proof fn lemma_rendered_single(ls: Seq<Seq<char>>, i: int)
    requires
        0 <= i < ls.len(),
        single_line(ls[i]),
    ensures
        single_line(rendered_text(ls, i)),
        rendered_line(ls, i) == rendered_text(ls, i).push('\n'),
{
    reveal_strlit("cli_auth_credentials_store");
    reveal_strlit(" = \"file\"");
    reveal_strlit(" #");
    if root_assignment_at(ls, i) {
        let r = replacement(ls[i]);
        match after_char(ls[i], '#') {
            Some(c) => {
                assert forall|k: int| 0 <= k < c.len() implies c[k] != '\n' by {
                    lemma_find_char(ls[i], '#');
                    let h = find_char(ls[i], '#').unwrap();
                    assert(c[k] == ls[i][h + 1 + k]);
                }
            },
            None => {},
        }
    }
}

proof fn lemma_scan_rendered(p: Seq<char>, ls: Seq<Seq<char>>, n: int)
    requires
        line_scan(p).1.len() == 0,
        0 <= n <= ls.len(),
        forall|i: int| 0 <= i < ls.len() ==> single_line(#[trigger] ls[i]),
    ensures
        line_scan(p + rendered(ls, n)) == (
            line_scan(p).0 + Seq::new(n as nat, |i: int| strip_cr(rendered_text(ls, i))),
            Seq::<char>::empty(),
        ),
    decreases n,
{
    if n == 0 {
        assert(p + rendered(ls, n) =~= p);
        assert(line_scan(p).0 + Seq::new(0, |i: int| strip_cr(rendered_text(ls, i))) =~= line_scan(p).0);
        assert(line_scan(p).1 =~= Seq::<char>::empty());
    } else {
        lemma_scan_rendered(p, ls, n - 1);
        lemma_rendered_single(ls, n - 1);
        let q = p + rendered(ls, n - 1);
        assert(p + rendered(ls, n) =~= q + rendered_text(ls, n - 1).push('\n'));
        lemma_scan_line(q, rendered_text(ls, n - 1));
        assert(line_scan(p).0 + Seq::new((n - 1) as nat, |i: int| strip_cr(rendered_text(ls, i))).push(
            strip_cr(rendered_text(ls, n - 1)),
        ) =~= line_scan(p).0 + Seq::new(n as nat, |i: int| strip_cr(rendered_text(ls, i))));
    }
}

proof fn lemma_trim_start_push(y: Seq<char>, c: char)
    ensures
        trim_start(y.push(c)) == if trim_start(y).len() == 0 && is_space(c) {
            Seq::<char>::empty()
        } else {
            trim_start(y).push(c)
        },
    decreases y.len(),
{
    if y.len() == 0 {
        let s = y.push(c);
        assert(trim_start(y) == y);
        assert(s[0] == c);
        if is_space(c) {
            assert(s.drop_first() =~= Seq::<char>::empty());
            assert(trim_start(s) == trim_start(s.drop_first()));
        } else {
            assert(trim_start(s) == s);
            assert(y.push(c) =~= s);
        }
    } else if is_space(y[0]) {
        assert(y.push(c).drop_first() =~= y.drop_first().push(c));
        assert(y.push(c)[0] == y[0]);
        lemma_trim_start_push(y.drop_first(), c);
    } else {
        assert(y.push(c)[0] == y[0]);
    }
}

/// Dropping a final `\r` changes neither whether a line opens a table nor
/// whether it assigns the credential setting.
proof fn lemma_strip_cr_same_kind(x: Seq<char>)
    ensures
        opens_table(strip_cr(x)) == opens_table(x),
        is_assignment(trim_start(strip_cr(x))) == is_assignment(trim_start(x)),
{
    reveal_strlit("cli_auth_credentials_store");
    reveal_strlit("[");
    reveal_strlit("=");
    if x.len() > 0 && x.last() == '\r' {
        let y = x.drop_last();
        assert(y.push('\r') =~= x);
        lemma_trim_start_push(y, '\r');
        let t = trim_start(y);
        if t.len() > 0 {
            let u = t.push('\r');
            assert(u.take(1) =~= t.take(1));
            let n = CREDENTIAL_SETTING@.len() as int;
            if t.len() >= n {
                assert(u.take(n) =~= t.take(n));
                assert(u.skip(n) =~= t.skip(n).push('\r'));
                lemma_trim_start_push(t.skip(n), '\r');
                let w = trim_start(t.skip(n));
                if w.len() > 0 {
                    assert(w.push('\r').take(1) =~= w.take(1));
                }
            } else if t.len() == n - 1 {
                assert(u.take(n)[n - 1] == '\r');
            }
        }
    }
}

/// What the line written for the credential setting is, once read back.
proof fn lemma_replacement_line(line: Seq<char>)
    ensures
        trim_start(strip_cr(replacement(line))) == strip_cr(replacement(line)),
        !opens_table(strip_cr(replacement(line))),
        is_assignment(strip_cr(replacement(line))),
        assigned_value(strip_cr(replacement(line))) == "file"@,
{
    reveal_strlit("cli_auth_credentials_store");
    reveal_strlit(" = \"file\"");
    reveal_strlit(" #");
    reveal_strlit("[");
    reveal_strlit("=");
    reveal_strlit("file");
    let key = CREDENTIAL_SETTING@;
    let base = key + " = \"file\""@;
    let tail = match after_char(line, '#') {
        Some(comment) => " #"@ + comment,
        None => Seq::<char>::empty(),
    };
    assert(replacement(line) == base + tail);
    let t2 = if tail.len() > 0 { strip_cr(tail) } else { tail };
    let r = base + t2;
    if tail.len() > 0 {
        assert((base + tail).last() == tail.last());
        if tail.last() == '\r' {
            assert((base + tail).drop_last() =~= base + tail.drop_last());
        }
        assert(t2.len() >= 2 && t2[0] == ' ' && t2[1] == '#');
    } else {
        assert(base + tail =~= base);
        assert(base.last() == '"');
    }
    assert(strip_cr(replacement(line)) == r);
    assert(r[0] == 'c');
    assert(trim_start(r) == r);
    assert(r.take(1)[0] != "["@[0]);
    assert(!opens_table(r));
    assert(r.take(26) =~= key);
    let rest = r.skip(26);
    assert(rest[0] == ' ');
    assert(rest.drop_first()[0] == '=');
    assert(trim_start(rest.drop_first()) == rest.drop_first());
    assert(trim_start(rest) == rest.drop_first());
    assert(rest.drop_first().take(1) =~= "="@);
    assert(is_assignment(r));
    assert forall|j: int| 0 <= j < 27 implies r[j] != '=' by {}
    lemma_find_char_at(r, '=', 27);
    let after = r.skip(28);
    assert(after_char(r, '=') == Some(after));
    let q = "\"file\""@;
    reveal_strlit("\"file\"");
    let value = if t2.len() > 0 {
        assert forall|j: int| 0 <= j < 8 implies after[j] != '#' by {}
        assert(after[8] == '#');
        lemma_find_char_at(after, '#', 8);
        let v = after.take(8);
        assert(v =~= seq![' '].add(q).push(' '));
        v
    } else {
        assert(after =~= seq![' '].add(q));
        assert forall|j: int| 0 <= j < after.len() implies after[j] != '#' by {}
        lemma_find_char(after, '#');
        after
    };
    assert(before_char(after, '#') == value);
    assert(value.drop_first() =~= q || value.drop_first() =~= q.push(' '));
    assert(trim_start(value) == trim_start(value.drop_first()));
    assert(trim_start(q) == q);
    if t2.len() > 0 {
        assert(value.drop_first() =~= q.push(' '));
        assert(q.push(' ')[0] == '"');
        assert(trim_start(q.push(' ')) == q.push(' '));
        assert(q.push(' ').drop_last() =~= q);
        assert(trim_end(q.push(' ')) == trim_end(q));
    }
    assert(trim_end(q) == q);
    assert(trim(value) == q);
    let f = "file"@;
    assert(q.drop_first() =~= f.push('"'));
    assert(f.push('"').drop_last() =~= f);
    assert(trim_matches(f, '"') == f);
    assert(trim_matches(f.push('"'), '"') == f);
    assert(trim_matches(q, '"') == f);
}

/// The earliest top-level assignment of the credential setting.
proof fn lemma_first_root(ls: Seq<Seq<char>>, k: int) -> (m: int)
    requires
        root_assignment_at(ls, k),
    ensures
        root_assignment_at(ls, m),
        m <= k,
        forall|j: int| 0 <= j < m ==> !root_assignment_at(ls, j),
    decreases k,
{
    if exists|j: int| 0 <= j < k && root_assignment_at(ls, j) {
        let j = choose|j: int| 0 <= j < k && root_assignment_at(ls, j);
        lemma_first_root(ls, j)
    } else {
        k
    }
}

/// `init` leaves the configuration selecting file-based credential storage:
/// whatever the file held, the first top-level assignment of
/// `cli_auth_credentials_store` in the written text has the value `file`.
pub proof fn law_configured_selects_file(config: Seq<char>)
    ensures
        file_credentials(configured(config)),
{
    let ls = lines(config);
    lemma_lines_single(config);
    lemma_lines_configured(config);
    let n = ls.len() as int;
    let s_lines = Seq::new(n as nat, |i: int| strip_cr(rendered_text(ls, i)));
    if !has_root_assignment(ls) {
        let base = replacement(Seq::<char>::empty());
        let out_lines = seq![strip_cr(base)] + s_lines;
        assert(lines(configured(config)) == out_lines);
        lemma_replacement_line(Seq::<char>::empty());
        assert(out_lines[0] == strip_cr(base));
        assert(root_assignment_at(out_lines, 0));
    } else {
        let k = choose|k: int| root_assignment_at(ls, k);
        let m = lemma_first_root(ls, k);
        assert(lines(configured(config)) == s_lines);
        lemma_replacement_line(ls[m]);
        assert forall|j: int| 0 <= j <= m implies !opens_table(#[trigger] s_lines[j]) by {
            lemma_strip_cr_same_kind(ls[j]);
            if j < m {
                assert(rendered_text(ls, j) == ls[j]);
            }
        }
        assert(root_assignment_at(s_lines, m));
        assert forall|j: int| 0 <= j < m implies !root_assignment_at(s_lines, j) by {
            lemma_strip_cr_same_kind(ls[j]);
            assert(rendered_text(ls, j) == ls[j]);
            if root_assignment_at(s_lines, j) {
                assert forall|i: int| 0 <= i <= j implies !opens_table(#[trigger] ls[i]) by {
                    assert(!opens_table(s_lines[i]));
                    lemma_strip_cr_same_kind(ls[i]);
                }
                assert(root_assignment_at(ls, j));
            }
        }
        assert(assigned_value(trim_start(s_lines[m])) == "file"@);
    }
}


/// A line that ends with a carriage return.
pub open spec fn ends_with_cr(line: Seq<char>) -> bool {
    line.len() > 0 && line.last() == '\r'
}

/// The lines of the written configuration: the lines as `init` renders
/// them, after the added line when one was added, each as `str::lines`
/// reads it back.
proof fn lemma_lines_configured(config: Seq<char>)
    ensures
        ({
            let ls = lines(config);
            let n = ls.len() as int;
            let s_lines = Seq::new(n as nat, |i: int| strip_cr(rendered_text(ls, i)));
            lines(configured(config)) == if has_root_assignment(ls) {
                s_lines
            } else {
                seq![strip_cr(replacement(Seq::<char>::empty()))] + s_lines
            }
        }),
{
    let ls = lines(config);
    lemma_lines_single(config);
    let n = ls.len() as int;
    let body = rendered(ls, n);
    let s_lines = Seq::new(n as nat, |i: int| strip_cr(rendered_text(ls, i)));
    if !has_root_assignment(ls) {
        let base = replacement(Seq::<char>::empty());
        reveal_strlit("cli_auth_credentials_store");
        reveal_strlit(" = \"file\"");
        assert(after_char(Seq::<char>::empty(), '#') is None);
        assert(base =~= CREDENTIAL_SETTING@ + " = \"file\""@);
        assert forall|k: int| 0 <= k < base.len() implies base[k] != '\n' by {}
        let h = base.push('\n');
        assert(Seq::<char>::empty() + base.push('\n') =~= h);
        lemma_scan_line(Seq::<char>::empty(), base);
        lemma_scan_rendered(h, ls, n);
        assert(line_scan(h).0 =~= seq![strip_cr(base)]);
        assert(configured(config) == h + body);
    } else {
        lemma_scan_rendered(Seq::<char>::empty(), ls, n);
        assert(Seq::<char>::empty() + body =~= body);
        assert(Seq::<Seq<char>>::empty() + s_lines =~= s_lines);
    }
}

/// The written line for the credential setting is written again unchanged.
proof fn lemma_replacement_twice(line: Seq<char>)
    ensures
        replacement(replacement(line)) == replacement(line),
        !ends_with_cr(replacement(line)) || ends_with_cr(line),
{
    reveal_strlit("cli_auth_credentials_store");
    reveal_strlit(" = \"file\"");
    reveal_strlit(" #");
    let base = CREDENTIAL_SETTING@ + " = \"file\""@;
    assert(base.len() == 35);
    assert forall|j: int| 0 <= j < base.len() implies base[j] != '#' by {}
    lemma_find_char(line, '#');
    match after_char(line, '#') {
        Some(c) => {
            let r = base + " #"@ + c;
            assert(replacement(line) == r);
            assert(r[36] == '#');
            assert forall|j: int| 0 <= j < 36 implies r[j] != '#' by {
                if j < 35 {
                    assert(r[j] == base[j]);
                }
            }
            lemma_find_char_at(r, '#', 36);
            assert(r.skip(37) =~= c);
            let h = find_char(line, '#').unwrap();
            if c.len() > 0 {
                assert(c.last() == line.last());
            } else {
                assert(r.last() == '#');
            }
        },
        None => {
            assert(replacement(line) =~= base);
            lemma_find_char(base, '#');
            assert(base.last() == '"');
        },
    }
}

/// Rendering a configuration whose lines are already rendered changes
/// nothing, line for line, where the credential setting is assigned at the
/// top level somewhere.
proof fn lemma_render_rendered(ls: Seq<Seq<char>>)
    requires
        forall|i: int| 0 <= i < ls.len() ==> !ends_with_cr(#[trigger] ls[i]),
        forall|i: int| 0 <= i < ls.len() ==> single_line(#[trigger] ls[i]),
    ensures
        ({
            let rt = Seq::new(ls.len(), |i: int| rendered_text(ls, i));
            &&& forall|i: int| 0 <= i < ls.len() ==> strip_cr(#[trigger] rendered_text(ls, i))
                == rendered_text(ls, i)
            &&& forall|i: int| root_assignment_at(rt, i) == root_assignment_at(ls, i)
            &&& rendered(rt, ls.len() as int) == rendered(ls, ls.len() as int)
        }),
{
    let n = ls.len() as int;
    let rt = Seq::new(ls.len(), |i: int| rendered_text(ls, i));
    assert forall|i: int| 0 <= i < n implies strip_cr(#[trigger] rendered_text(ls, i)) == rendered_text(
        ls,
        i,
    ) by {
        if root_assignment_at(ls, i) {
            lemma_replacement_twice(ls[i]);
        }
    }
    assert forall|j: int| 0 <= j < n implies opens_table(#[trigger] rt[j]) == opens_table(ls[j]) by {
        if root_assignment_at(ls, j) {
            lemma_replacement_line(ls[j]);
            lemma_replacement_twice(ls[j]);
            assert(!opens_table(ls[j]));
        }
    }
    assert forall|i: int| root_assignment_at(rt, i) == root_assignment_at(ls, i) by {
        if 0 <= i < n {
            if root_assignment_at(ls, i) {
                lemma_replacement_line(ls[i]);
                lemma_replacement_twice(ls[i]);
                assert forall|j: int| 0 <= j <= i implies !opens_table(#[trigger] rt[j]) by {
                    assert(!opens_table(ls[j]));
                }
            } else {
                assert(rt[i] == ls[i]);
                if root_assignment_at(rt, i) {
                    assert forall|j: int| 0 <= j <= i implies !opens_table(#[trigger] ls[j]) by {
                        assert(!opens_table(rt[j]));
                    }
                }
            }
        }
    }
    assert forall|i: int| 0 <= i < n implies #[trigger] rendered_line(rt, i) == rendered_line(ls, i) by {
        if root_assignment_at(ls, i) {
            lemma_replacement_twice(ls[i]);
        }
    }
    lemma_rendered_same(rt, ls, n);
}

proof fn lemma_rendered_same(a: Seq<Seq<char>>, b: Seq<Seq<char>>, n: int)
    requires
        0 <= n,
        forall|i: int| 0 <= i < n ==> #[trigger] rendered_line(a, i) == rendered_line(b, i),
    ensures
        rendered(a, n) == rendered(b, n),
    decreases n,
{
    if n > 0 {
        lemma_rendered_same(a, b, n - 1);
    }
}

/// `init` is idempotent: writing the configuration it wrote gives the same
/// text again, so a second run finds nothing to change. This holds when no
/// line of the configuration ends with a carriage return that is
/// not part of a `\r\n` line break (a line break that `str::lines` would
/// turn into a plain `\n`).
pub proof fn law_configure_idempotent(config: Seq<char>)
    requires
        forall|i: int| 0 <= i < lines(config).len() ==> !ends_with_cr(#[trigger] lines(config)[i]),
    ensures
        configured(configured(config)) == configured(config),
{
    let ls = lines(config);
    let n = ls.len() as int;
    lemma_lines_single(config);
    lemma_lines_configured(config);
    lemma_render_rendered(ls);
    let rt = Seq::new(ls.len(), |i: int| rendered_text(ls, i));
    let s_lines = Seq::new(n as nat, |i: int| strip_cr(rendered_text(ls, i)));
    assert(s_lines =~= rt);
    let once = configured(config);
    if has_root_assignment(ls) {
        assert(lines(once) == rt);
        let k = choose|k: int| root_assignment_at(ls, k);
        assert(root_assignment_at(rt, k));
        assert(has_root_assignment(rt));
        assert(configured(once) == rendered(rt, n));
    } else {
        let base = replacement(Seq::<char>::empty());
        lemma_replacement_twice(Seq::<char>::empty());
        lemma_replacement_line(Seq::<char>::empty());
        assert(strip_cr(base) == base);
        let m = seq![base] + rt;
        assert(lines(once) == m);
        assert forall|i: int| 0 <= i < n implies #[trigger] rt[i] == ls[i] by {
            assert(!root_assignment_at(ls, i));
        }
        assert(rt =~= ls);
        assert(trim_start(base) == base);
        assert(root_assignment_at(m, 0)) by {
            assert(m[0] == base);
        }
        assert(has_root_assignment(m));
        assert forall|i: int| 0 < i < n + 1 implies !#[trigger] root_assignment_at(m, i) by {
            if root_assignment_at(m, i) {
                assert(m[i] == ls[i - 1]);
                assert forall|j: int| 0 <= j <= i - 1 implies !opens_table(#[trigger] ls[j]) by {
                    assert(m[j + 1] == ls[j]);
                }
                assert(root_assignment_at(ls, i - 1));
            }
        }
        lemma_rendered_shift(m, ls, base, n);
        assert(configured(once) == rendered(m, n + 1));
        assert(configured(config) == base.push('\n') + rendered(ls, n));
    }
}

/// Rendering the added line followed by lines without a top-level
/// assignment: the added line, then the lines unchanged.
proof fn lemma_rendered_shift(m: Seq<Seq<char>>, ls: Seq<Seq<char>>, base: Seq<char>, k: int)
    requires
        0 <= k <= ls.len(),
        m == seq![base] + ls,
        root_assignment_at(m, 0),
        replacement(base) == base,
        forall|i: int| 0 < i < ls.len() + 1 ==> !#[trigger] root_assignment_at(m, i),
        !has_root_assignment(ls),
    ensures
        rendered(m, k + 1) == base.push('\n') + rendered(ls, k),
    decreases k,
{
    if k == 0 {
        assert(rendered(m, 0) == Seq::<char>::empty());
        assert(rendered(ls, 0) == Seq::<char>::empty());
        assert(Seq::<char>::empty() + base.push('\n') =~= base.push('\n'));
        assert(base.push('\n') + Seq::<char>::empty() =~= base.push('\n'));
    } else {
        lemma_rendered_shift(m, ls, base, k - 1);
        assert(m[k] == ls[k - 1]);
        assert(!root_assignment_at(ls, k - 1));
        assert(!root_assignment_at(m, k));
        assert(rendered_line(m, k) == rendered_line(ls, k - 1));
        assert(base.push('\n') + rendered(ls, k - 1) + rendered_line(ls, k - 1) =~= base.push('\n')
            + (rendered(ls, k - 1) + rendered_line(ls, k - 1)));
    }
}

} // verus!
