//! Parser for one line of a classic Unix-style FTP directory listing:
//! permissions, link count, owner, group, size, three date fields, then the
//! name, which is the rest of the line and may hold spaces.

use vstd::prelude::*;
use crate::model::FileEntry;
use crate::text::{append_chars, chars_of, is_whitespace, is_ws, push_char, push_chars, string_of};
use vstd::string::StringExecFns;
use vstd::multiset::Multiset;

verus! {

/// Words of `s` when a word `cur` is being read: each maximal run of
/// non-whitespace characters is one word.
pub open spec fn words_from(s: Seq<char>, cur: Seq<char>) -> Seq<Seq<char>>
    decreases s.len(),
{
    if s.len() == 0 {
        if cur.len() == 0 {
            Seq::empty()
        } else {
            seq![cur]
        }
    } else if is_ws(s[0]) {
        if cur.len() == 0 {
            words_from(s.drop_first(), Seq::empty())
        } else {
            seq![cur] + words_from(s.drop_first(), Seq::empty())
        }
    } else {
        words_from(s.drop_first(), cur.push(s[0]))
    }
}

/// The whitespace-separated words of `s`, left to right.
pub open spec fn words(s: Seq<char>) -> Seq<Seq<char>> {
    words_from(s, Seq::empty())
}

/// The words joined by single spaces.
pub open spec fn join_spaced(ws: Seq<Seq<char>>) -> Seq<char>
    decreases ws.len(),
{
    if ws.len() == 0 {
        Seq::empty()
    } else if ws.len() == 1 {
        ws[0]
    } else {
        join_spaced(ws.drop_last()) + seq![' '] + ws.last()
    }
}

pub open spec fn is_digit(c: char) -> bool {
    '0' <= c && c <= '9'
}

/// The number that a string of decimal digits writes.
pub open spec fn digits_value(d: Seq<char>) -> nat
    decreases d.len(),
{
    if d.len() == 0 {
        0
    } else {
        digits_value(d.drop_last()) * 10 + (d.last() as nat - '0' as nat) as nat
    }
}

/// What `u64::from_str` accepts: an optional `+`, then one or more decimal
/// digits whose value fits in 64 bits.
pub open spec fn parse_u64(t: Seq<char>) -> Option<u64> {
    let d = unsigned_digits(t);
    if d.len() > 0 && all_digits(d) && digits_value(d) <= u64::MAX {
        Some(digits_value(d) as u64)
    } else {
        None
    }
}

/// A number field without its optional leading `+`.
pub open spec fn unsigned_digits(t: Seq<char>) -> Seq<char> {
    if t.len() > 0 && t[0] == '+' {
        t.drop_first()
    } else {
        t
    }
}

pub open spec fn all_digits(d: Seq<char>) -> bool {
    forall|i: int| 0 <= i < d.len() ==> is_digit(#[trigger] d[i])
}

/// The path of `name` inside directory `parent`.
pub open spec fn child_path(parent: Seq<char>, name: Seq<char>) -> Seq<char> {
    if parent.len() > 0 && parent.last() == '/' {
        parent + name
    } else {
        parent + seq!['/'] + name
    }
}

/// The name field of a listing line: every word from the ninth on.
pub open spec fn entry_name(line: Seq<char>) -> Seq<char> {
    join_spaced(words(line).subrange(8, words(line).len() as int))
}

/// Whether a listing line yields an entry: it has at least nine words and
/// does not name `.` or `..`.
pub open spec fn is_listed(line: Seq<char>) -> bool {
    words(line).len() >= 9 && entry_name(line) != seq!['.'] && entry_name(line) != seq!['.', '.']
}

proof fn lemma_words_step(s: Seq<char>, i: int, cur: Seq<char>)
    requires
        0 <= i < s.len(),
    ensures
        words_from(s.subrange(i, s.len() as int), cur) == (if is_ws(s[i]) {
            if cur.len() == 0 {
                words_from(s.subrange(i + 1, s.len() as int), Seq::empty())
            } else {
                seq![cur] + words_from(s.subrange(i + 1, s.len() as int), Seq::empty())
            }
        } else {
            words_from(s.subrange(i + 1, s.len() as int), cur.push(s[i]))
        }),
{
    let t = s.subrange(i, s.len() as int);
    assert(t.drop_first() =~= s.subrange(i + 1, s.len() as int));
    assert(t[0] == s[i]);
}

/// Splits a line at whitespace, as `str::split_whitespace` does.
pub fn split_words(line: &Vec<char>) -> (r: Vec<Vec<char>>)
    ensures
        r@.len() == words(line@).len(),
        forall|k: int| 0 <= k < r@.len() ==> #[trigger] r@[k]@ == words(line@)[k],
{
    let n = line.len();
    let mut out: Vec<Vec<char>> = Vec::new();
    let mut cur: Vec<char> = Vec::new();
    let ghost mut done: Seq<Seq<char>> = Seq::empty();
    let mut i: usize = 0;
    assert(line@.subrange(0, n as int) =~= line@);
    assert(cur@ =~= Seq::<char>::empty());
    assert(done + words_from(line@, Seq::empty()) =~= words_from(line@, Seq::empty()));
    while i < n
        invariant
            0 <= i <= n == line@.len(),
            out@.len() == done.len(),
            forall|k: int| 0 <= k < out@.len() ==> #[trigger] out@[k]@ == done[k],
            words(line@) == done + words_from(line@.subrange(i as int, n as int), cur@),
        decreases n - i,
    {
        proof {
            lemma_words_step(line@, i as int, cur@);
        }
        let c = line[i];
        if is_whitespace(c) {
            if cur.len() == 0 {
                assert(cur@ =~= Seq::<char>::empty());
            } else {
                proof {
                    assert(done + (seq![cur@] + words_from(line@.subrange(i + 1, n as int), Seq::empty()))
                        =~= done.push(cur@) + words_from(line@.subrange(i + 1, n as int), Seq::empty()));
                    done = done.push(cur@);
                }
                out.push(cur);
                cur = Vec::new();
                assert(cur@ =~= Seq::<char>::empty());
            }
        } else {
            cur.push(c);
        }
        i = i + 1;
    }
    assert(line@.subrange(n as int, n as int) =~= Seq::<char>::empty());
    if cur.len() > 0 {
        proof {
            assert(done + seq![cur@] =~= done.push(cur@));
            done = done.push(cur@);
        }
        out.push(cur);
    } else {
        assert(done + Seq::<Seq<char>>::empty() =~= done);
    }
    out
}

/// Reads a size field as `u64::from_str` would.
pub fn parse_size(t: &Vec<char>) -> (r: Option<u64>)
    ensures
        r == parse_u64(t@),
{
    let start: usize = if t.len() > 0 && t[0] == '+' { 1 } else { 0 };
    let ghost d = unsigned_digits(t@);
    assert(d =~= t@.subrange(start as int, t@.len() as int));
    if start >= t.len() {
        return None;
    }
    let mut acc: u64 = 0;
    let mut over = false;
    let mut i = start;
    while i < t.len()
        invariant
            start <= i <= t@.len(),
            d == unsigned_digits(t@),
            d == t@.subrange(start as int, t@.len() as int),
            forall|j: int| start <= j < i ==> is_digit(#[trigger] t@[j]),
            !over ==> acc as nat == digits_value(t@.subrange(start as int, i as int)),
            over ==> digits_value(t@.subrange(start as int, i as int)) > u64::MAX,
        decreases t@.len() - i,
    {
        let c = t[i];
        if !('0' <= c && c <= '9') {
            assert(d[i - start] == t@[i as int]);
            assert(!is_digit(d[i - start]));
            assert(!all_digits(d));
            return None;
        }
        let ghost prev = t@.subrange(start as int, i as int);
        let ghost next = t@.subrange(start as int, i + 1);
        assert(next.drop_last() =~= prev);
        assert(next.last() == c);
        let dig = (c as u32 - '0' as u32) as u64;
        assert(digits_value(next) == digits_value(prev) * 10 + dig);
        if !over {
            if acc > (u64::MAX - dig) / 10 {
                assert(acc * 10 + dig > u64::MAX) by (nonlinear_arith)
                    requires
                        acc > (u64::MAX - dig) / 10,
                        dig <= 9,
                ;
                over = true;
            } else {
                assert(acc * 10 + dig <= u64::MAX) by (nonlinear_arith)
                    requires
                        acc <= (u64::MAX - dig) / 10,
                        dig <= 9,
                ;
                acc = acc * 10 + dig;
            }
        } else {
            assert(digits_value(prev) * 10 + dig > u64::MAX) by (nonlinear_arith)
                requires
                    digits_value(prev) > u64::MAX,
            ;
        }
        i = i + 1;
    }
    assert(t@.subrange(start as int, i as int) =~= d);
    assert forall|j: int| 0 <= j < d.len() implies is_digit(#[trigger] d[j]) by {
        assert(d[j] == t@[start + j]);
    }
    if over {
        None
    } else {
        Some(acc)
    }
}

/// The `modified` field of a listing line: its three date words.
pub open spec fn entry_date(line: Seq<char>) -> Seq<char> {
    words(line)[5] + seq![' '] + words(line)[6] + seq![' '] + words(line)[7]
}

/// Parses one line of a directory listing of `parent_path`. Lines with fewer
/// than nine words, and the `.` and `..` entries, give `None`. A size field
/// that is not a number reads as 0.
pub fn parse_ftp_list_entry(line: &str, parent_path: &str) -> (r: Option<FileEntry>)
    ensures
        r is Some <==> is_listed(line@),
        r matches Some(e) ==> {
            &&& e.name@ == entry_name(line@)
            &&& e.path@ == child_path(parent_path@, entry_name(line@))
            &&& e.is_dir == (line@.len() > 0 && line@[0] == 'd')
            &&& e.size == (match parse_u64(words(line@)[4]) {
                Some(v) => v,
                None => 0,
            })
            &&& e.modified matches Some(m) && m@ == entry_date(line@)
        },
{
    let chars = chars_of(line);
    let parts = split_words(&chars);
    let ghost ws = words(line@);
    if parts.len() < 9 {
        return None;
    }
    let mut name: Vec<char> = Vec::new();
    let mut k: usize = 8;
    assert(ws.subrange(8, 8) =~= Seq::<Seq<char>>::empty());
    while k < parts.len()
        invariant
            8 <= k <= parts@.len() == ws.len(),
            ws == words(line@),
            forall|j: int| 0 <= j < parts@.len() ==> #[trigger] parts@[j]@ == ws[j],
            name@ == join_spaced(ws.subrange(8, k as int)),
        decreases parts@.len() - k,
    {
        let ghost before = name@;
        if k > 8 {
            name.push(' ');
        }
        append_chars(&mut name, &parts[k]);
        proof {
            let sub = ws.subrange(8, k + 1);
            assert(sub.drop_last() =~= ws.subrange(8, k as int));
            assert(sub.last() == ws[k as int]);
            if k == 8 {
                assert(before =~= Seq::<char>::empty());
                assert(name@ =~= ws[8]);
            } else {
                assert(name@ =~= before + seq![' '] + ws[k as int]);
            }
        }
        k = k + 1;
    }
    assert(ws.subrange(8, parts@.len() as int) == ws.subrange(8, ws.len() as int));
    if (name.len() == 1 && name[0] == '.') || (name.len() == 2 && name[0] == '.' && name[1] == '.') {
        proof {
            if name.len() == 1 {
                assert(name@ =~= seq!['.']);
            } else {
                assert(name@ =~= seq!['.', '.']);
            }
        }
        return None;
    }
    assert(name@ != seq!['.']) by {
        if name@ == seq!['.'] {
            assert(name@.len() == 1 && name@[0] == '.');
        }
    }
    assert(name@ != seq!['.', '.']) by {
        if name@ == seq!['.', '.'] {
            assert(name@.len() == 2 && name@[0] == '.' && name@[1] == '.');
        }
    }
    let is_dir = chars.len() > 0 && chars[0] == 'd';
    let size = match parse_size(&parts[4]) {
        Some(v) => v,
        None => 0,
    };
    let parent = chars_of(parent_path);
    let mut path = String::from_str(parent_path);
    if !(parent.len() > 0 && parent[parent.len() - 1] == '/') {
        push_char(&mut path, '/');
    }
    push_chars(&mut path, &name);
    let mut modified = string_of(&parts[5], 0, parts[5].len());
    assert(parts[5]@.subrange(0, parts[5]@.len() as int) =~= parts[5]@);
    push_char(&mut modified, ' ');
    push_chars(&mut modified, &parts[6]);
    push_char(&mut modified, ' ');
    push_chars(&mut modified, &parts[7]);
    let name_str = string_of(&name, 0, name.len());
    assert(name@.subrange(0, name@.len() as int) =~= name@);
    Some(FileEntry { name: name_str, path, is_dir, size, modified: Some(modified) })
}

/// `s` without its trailing slashes.
pub open spec fn trim_slashes(s: Seq<char>) -> Seq<char>
    decreases s.len(),
{
    if s.len() > 0 && s.last() == '/' {
        trim_slashes(s.drop_last())
    } else {
        s
    }
}

/// The remote path of `name` inside remote directory `dir`: the directory
/// without trailing slashes, a slash, then the name.
pub fn remote_child(dir: &str, name: &str) -> (r: String)
    ensures
        r@ == trim_slashes(dir@) + seq!['/'] + name@,
{
    let v = chars_of(dir);
    let mut end = v.len();
    assert(v@.subrange(0, end as int) =~= v@);
    while end > 0 && v[end - 1] == '/'
        invariant
            0 <= end <= v@.len(),
            trim_slashes(v@) == trim_slashes(v@.subrange(0, end as int)),
        decreases end,
    {
        assert(v@.subrange(0, end as int).drop_last() =~= v@.subrange(0, end - 1));
        end = end - 1;
    }
    let mut out = string_of(&v, 0, end);
    push_char(&mut out, '/');
    let n = chars_of(name);
    push_chars(&mut out, &n);
    out
}


/// `a` sorts no later than `b`: code point by code point, a prefix first.
/// This is the order of `str`'s `Ord`, as UTF-8 keeps code point order.
pub open spec fn chars_le(a: Seq<char>, b: Seq<char>) -> bool
    decreases a.len(),
{
    if a.len() == 0 {
        true
    } else if b.len() == 0 {
        false
    } else if a[0] != b[0] {
        a[0] < b[0]
    } else {
        chars_le(a.drop_first(), b.drop_first())
    }
}

proof fn lemma_chars_le_total(a: Seq<char>, b: Seq<char>)
    ensures
        chars_le(a, b) || chars_le(b, a),
    decreases a.len(),
{
    if a.len() > 0 && b.len() > 0 && a[0] == b[0] {
        lemma_chars_le_total(a.drop_first(), b.drop_first());
    }
}

proof fn lemma_chars_le_trans(a: Seq<char>, b: Seq<char>, c: Seq<char>)
    requires
        chars_le(a, b),
        chars_le(b, c),
    ensures
        chars_le(a, c),
    decreases a.len(),
{
    if a.len() > 0 && b.len() > 0 && c.len() > 0 && a[0] == b[0] && b[0] == c[0] {
        lemma_chars_le_trans(a.drop_first(), b.drop_first(), c.drop_first());
    }
}

/// `a` may be listed before `b`: directories first, then by name.
pub open spec fn listed_before(a: FileEntry, b: FileEntry) -> bool {
    (a.is_dir && !b.is_dir) || (a.is_dir == b.is_dir && chars_le(a.name@, b.name@))
}

proof fn lemma_listed_total(a: FileEntry, b: FileEntry)
    ensures
        listed_before(a, b) || listed_before(b, a),
{
    lemma_chars_le_total(a.name@, b.name@);
}

proof fn lemma_listed_trans(a: FileEntry, b: FileEntry, c: FileEntry)
    requires
        listed_before(a, b),
        listed_before(b, c),
    ensures
        listed_before(a, c),
{
    if a.is_dir == b.is_dir && b.is_dir == c.is_dir {
        lemma_chars_le_trans(a.name@, b.name@, c.name@);
    }
}

pub open spec fn is_listing_order(s: Seq<FileEntry>) -> bool {
    forall|i: int, j: int| 0 <= i < j < s.len() ==> listed_before(#[trigger] s[i], #[trigger] s[j])
}

fn chars_le_exec(a: &Vec<char>, b: &Vec<char>) -> (r: bool)
    ensures
        r == chars_le(a@, b@),
{
    let mut i: usize = 0;
    assert(a@.subrange(0, a@.len() as int) =~= a@);
    assert(b@.subrange(0, b@.len() as int) =~= b@);
    while i < a.len() && i < b.len() && a[i] == b[i]
        invariant
            0 <= i <= a@.len(),
            i <= b@.len(),
            forall|k: int| 0 <= k < i ==> a@[k] == b@[k],
            chars_le(a@, b@) == chars_le(a@.subrange(i as int, a@.len() as int), b@.subrange(i as int, b@.len() as int)),
        decreases a@.len() - i,
    {
        let ghost sa = a@.subrange(i as int, a@.len() as int);
        let ghost sb = b@.subrange(i as int, b@.len() as int);
        assert(sa.drop_first() =~= a@.subrange(i + 1, a@.len() as int));
        assert(sb.drop_first() =~= b@.subrange(i + 1, b@.len() as int));
        i = i + 1;
    }
    if i == a.len() {
        true
    } else if i == b.len() {
        false
    } else {
        let ghost sa = a@.subrange(i as int, a@.len() as int);
        let ghost sb = b@.subrange(i as int, b@.len() as int);
        assert(sa[0] == a@[i as int] && sb[0] == b@[i as int]);
        a[i] < b[i]
    }
}

/// Orders a directory listing: directories first, then by name. Entries
/// that tie keep their order.
pub fn order_listing(entries: Vec<FileEntry>) -> (r: Vec<FileEntry>)
    ensures
        r@.to_multiset() == entries@.to_multiset(),
        is_listing_order(r@),
{
    broadcast use vstd::seq_lib::group_to_multiset_ensures;

    let ghost orig = entries@;
    let mut rest = entries;
    let mut out: Vec<FileEntry> = Vec::new();
    let mut names: Vec<Vec<char>> = Vec::new();
    assert(orig.subrange(0, orig.len() as int) =~= orig);
    while rest.len() > 0
        invariant
            rest@ == orig.subrange(0, rest@.len() as int),
            rest@.len() <= orig.len(),
            out@.to_multiset().add(rest@.to_multiset()) == orig.to_multiset(),
            names@.len() == out@.len(),
            forall|k: int| 0 <= k < out@.len() ==> #[trigger] names@[k]@ == out@[k].name@,
            is_listing_order(out@),
        decreases rest@.len(),
    {
        let ghost before_rest = rest@;
        let x = rest.pop().unwrap();
        proof {
            assert(before_rest =~= rest@.push(x));
            assert(rest@ =~= orig.subrange(0, rest@.len() as int));
        }
        let xn = chars_of(x.name.as_str());
        let mut p: usize = 0;
        while p < out.len() && !(x.is_dir && !out[p].is_dir
            || (x.is_dir == out[p].is_dir && chars_le_exec(&xn, &names[p])))
            invariant
                0 <= p <= out@.len(),
                names@.len() == out@.len(),
                forall|k: int| 0 <= k < out@.len() ==> #[trigger] names@[k]@ == out@[k].name@,
                xn@ == x.name@,
                forall|k: int| 0 <= k < p ==> !listed_before(x, #[trigger] out@[k]),
            decreases out@.len() - p,
        {
            p = p + 1;
        }
        let ghost old_out = out@;
        let ghost old_names = names@;
        proof {
            assert forall|k: int| 0 <= k < p implies listed_before(#[trigger] old_out[k], x) by {
                lemma_listed_total(x, old_out[k]);
            }
            if p < old_out.len() {
                assert(listed_before(x, old_out[p as int]));
                assert forall|k: int| p <= k < old_out.len() implies listed_before(x, #[trigger] old_out[k]) by {
                    if k > p {
                        lemma_listed_trans(x, old_out[p as int], old_out[k]);
                    }
                }
            }
        }
        out.insert(p, x);
        names.insert(p, xn);
        proof {
            assert(out@ == old_out.insert(p as int, x));
            assert forall|i: int, j: int| 0 <= i < j < out@.len() implies
                listed_before(#[trigger] out@[i], #[trigger] out@[j]) by {
                if i < p && j < p {
                    assert(out@[i] == old_out[i] && out@[j] == old_out[j]);
                } else if i < p && j == p {
                    assert(out@[i] == old_out[i]);
                } else if i < p {
                    assert(out@[i] == old_out[i] && out@[j] == old_out[j - 1]);
                } else if i == p {
                    assert(out@[j] == old_out[j - 1]);
                } else {
                    assert(out@[i] == old_out[i - 1] && out@[j] == old_out[j - 1]);
                }
            }
            assert forall|k: int| 0 <= k < out@.len() implies #[trigger] names@[k]@ == out@[k].name@ by {
                if k < p {
                    assert(names@[k] == old_names[k]);
                } else if k > p {
                    assert(names@[k] == old_names[k - 1]);
                }
            }
            vstd::seq_lib::to_multiset_insert(old_out, p as int, x);
            vstd::seq_lib::to_multiset_build(rest@, x);
            assert(out@.to_multiset() =~= old_out.to_multiset().insert(x));
            assert(before_rest.to_multiset() =~= rest@.to_multiset().insert(x));
            assert(out@.to_multiset().add(rest@.to_multiset()) =~= old_out.to_multiset().add(before_rest.to_multiset()));
        }
    }
    assert(rest@.to_multiset() =~= Multiset::<FileEntry>::empty());
    assert(out@.to_multiset().add(Multiset::<FileEntry>::empty()) =~= out@.to_multiset());
    out
}

} // verus!
