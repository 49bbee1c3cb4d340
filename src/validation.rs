//! Checks on user input: host records, file names, and joining a file name
//! onto a directory without escaping it.

use vstd::prelude::*;
use std::path::PathBuf;
use crate::model::Host;
use crate::text::{chars_of, is_whitespace, is_ws, join_str, string_of};
use vstd::string::StringExecFns;

verus! {

pub const MAX_NAME_LEN: usize = 128;
pub const MAX_HOST_LEN: usize = 256;
pub const MAX_USERNAME_LEN: usize = 128;
pub const MAX_PASSWORD_LEN: usize = 512;
pub const MAX_KEY_PATH_LEN: usize = 1024;

/// `s` without leading whitespace.
pub open spec fn trim_start(s: Seq<char>) -> Seq<char>
    decreases s.len(),
{
    if s.len() > 0 && is_ws(s[0]) {
        trim_start(s.drop_first())
    } else {
        s
    }
}

/// `s` without trailing whitespace.
pub open spec fn trim_end(s: Seq<char>) -> Seq<char>
    decreases s.len(),
{
    if s.len() > 0 && is_ws(s.last()) {
        trim_end(s.drop_last())
    } else {
        s
    }
}

/// `s` without leading or trailing whitespace, as `str::trim` gives it.
pub open spec fn trim_ws(s: Seq<char>) -> Seq<char> {
    trim_end(trim_start(s))
}

/// Bytes that the UTF-8 encoding of `c` takes.
pub open spec fn utf8_width(c: char) -> nat {
    let u = c as u32;
    if u < 0x80 {
        1
    } else if u < 0x800 {
        2
    } else if u < 0x10000 {
        3
    } else {
        4
    }
}

/// Bytes that the UTF-8 encoding of `s` takes: what `str::len` counts.
pub open spec fn utf8_len(s: Seq<char>) -> nat
    decreases s.len(),
{
    if s.len() == 0 {
        0
    } else {
        utf8_len(s.drop_last()) + utf8_width(s.last())
    }
}

/// The trimmed characters of `s`.
pub fn trimmed(s: &str) -> (r: Vec<char>)
    ensures
        r@ == trim_ws(s@),
{
    let v = chars_of(s);
    let n = v.len();
    let mut a: usize = 0;
    assert(v@.subrange(0, n as int) =~= v@);
    while a < n && is_whitespace(v[a])
        invariant
            0 <= a <= n == v@.len(),
            trim_start(v@) == trim_start(v@.subrange(a as int, n as int)),
        decreases n - a,
    {
        let ghost t = v@.subrange(a as int, n as int);
        assert(t.drop_first() =~= v@.subrange(a + 1, n as int));
        a = a + 1;
    }
    let ghost ta = v@.subrange(a as int, n as int);
    assert(trim_start(ta) == ta);
    let mut b: usize = n;
    while b > a && is_whitespace(v[b - 1])
        invariant
            a <= b <= n == v@.len(),
            trim_end(ta) == trim_end(v@.subrange(a as int, b as int)),
        decreases b - a,
    {
        let ghost t = v@.subrange(a as int, b as int);
        assert(t.drop_last() =~= v@.subrange(a as int, b - 1));
        b = b - 1;
    }
    let ghost tb = v@.subrange(a as int, b as int);
    assert(trim_end(tb) == tb);
    let mut out: Vec<char> = Vec::new();
    let mut i = a;
    while i < b
        invariant
            a <= i <= b <= n == v@.len(),
            out@ == v@.subrange(a as int, i as int),
        decreases b - i,
    {
        out.push(v[i]);
        assert(v@.subrange(a as int, i + 1) =~= v@.subrange(a as int, i as int).push(v@[i as int]));
        i = i + 1;
    }
    out
}

/// UTF-8 length of some characters, or `None` past `usize::MAX`.
pub fn utf8_length(v: &Vec<char>) -> (r: usize)
    requires
        utf8_len(v@) <= usize::MAX,
    ensures
        r == utf8_len(v@),
{
    let mut total: usize = 0;
    let mut i: usize = 0;
    while i < v.len()
        invariant
            0 <= i <= v@.len(),
            total == utf8_len(v@.subrange(0, i as int)),
            utf8_len(v@) <= usize::MAX,
        decreases v@.len() - i,
    {
        let ghost next = v@.subrange(0, i + 1);
        assert(next.drop_last() =~= v@.subrange(0, i as int));
        proof {
            lemma_utf8_len_prefix(v@, i + 1);
        }
        let u = v[i] as u32;
        let w: usize = if u < 0x80 { 1 } else if u < 0x800 { 2 } else if u < 0x10000 { 3 } else { 4 };
        total = total + w;
        i = i + 1;
    }
    assert(v@.subrange(0, v@.len() as int) =~= v@);
    total
}

proof fn lemma_utf8_len_prefix(s: Seq<char>, k: int)
    requires
        0 <= k <= s.len(),
    ensures
        utf8_len(s.subrange(0, k)) <= utf8_len(s),
    decreases s.len() - k,
{
    if k < s.len() {
        lemma_utf8_len_prefix(s, k + 1);
        let next = s.subrange(0, k + 1);
        assert(next.drop_last() =~= s.subrange(0, k));
    } else {
        assert(s.subrange(0, k) =~= s);
    }
}

proof fn lemma_utf8_len_bound(s: Seq<char>)
    ensures
        utf8_len(s) <= 4 * s.len(),
        utf8_len(s) >= s.len(),
    decreases s.len(),
{
    if s.len() > 0 {
        lemma_utf8_len_bound(s.drop_last());
    }
}

/// `s` holds two dots in a row.
pub open spec fn has_dotdot(s: Seq<char>) -> bool {
    exists|i: int| 0 <= i < s.len() - 1 && s[i] == '.' && #[trigger] s[i + 1] == '.'
}

fn contains_dotdot(v: &Vec<char>) -> (r: bool)
    ensures
        r == has_dotdot(v@),
{
    let mut i: usize = 0;
    while v.len() >= 2 && i < v.len() - 1
        invariant
            0 <= i,
            i <= v@.len(),
            forall|j: int| 0 <= j < i && j < v@.len() - 1 ==> !(v@[j] == '.' && #[trigger] v@[j + 1] == '.'),
        decreases v@.len() - i,
    {
        if v[i] == '.' && v[i + 1] == '.' {
            return true;
        }
        i = i + 1;
    }
    false
}

fn contains_char(v: &Vec<char>, c: char) -> (r: bool)
    ensures
        r == v@.contains(c),
{
    let mut i: usize = 0;
    while i < v.len()
        invariant
            0 <= i <= v@.len(),
            forall|j: int| 0 <= j < i ==> v@[j] != c,
        decreases v@.len() - i,
    {
        if v[i] == c {
            return true;
        }
        i = i + 1;
    }
    false
}

/// What is wrong with a host name, if anything.
pub open spec fn name_error(s: Seq<char>) -> Option<Seq<char>> {
    let t = trim_ws(s);
    if t.len() == 0 {
        Some("Host name must not be empty"@)
    } else if utf8_len(t) > MAX_NAME_LEN {
        Some("Host name must not exceed 128 bytes"@)
    } else {
        None
    }
}

pub open spec fn file_scheme() -> Seq<char> {
    seq!['f', 'i', 'l', 'e', ':', '/', '/']
}

/// What is wrong with a host address, if anything.
pub open spec fn address_error(s: Seq<char>) -> Option<Seq<char>> {
    let t = trim_ws(s);
    if t.len() == 0 {
        Some("Host address must not be empty"@)
    } else if utf8_len(t) > MAX_HOST_LEN {
        Some("Host address must not exceed 256 bytes"@)
    } else if t.len() >= 7 && t.subrange(0, 7) == file_scheme() {
        Some("The file:// scheme is not allowed"@)
    } else {
        None
    }
}

pub open spec fn port_error(port: u16) -> Option<Seq<char>> {
    if port == 0 {
        Some("Port must not be 0"@)
    } else {
        None
    }
}

pub open spec fn username_error(s: Seq<char>) -> Option<Seq<char>> {
    let t = trim_ws(s);
    if t.len() == 0 {
        Some("User name must not be empty"@)
    } else if utf8_len(t) > MAX_USERNAME_LEN {
        Some("User name must not exceed 128 bytes"@)
    } else {
        None
    }
}

pub open spec fn password_error(s: Seq<char>) -> Option<Seq<char>> {
    if utf8_len(s) > MAX_PASSWORD_LEN {
        Some("Password must not exceed 512 bytes"@)
    } else {
        None
    }
}

/// Whether a path is absolute on this platform, as `Path::is_absolute` says.
pub uninterp spec fn absolute_path(p: Seq<char>) -> bool;

/// Relies on `std::path::Path::is_absolute`; its answer depends on the text alone.
#[verifier::external_body]
fn path_is_absolute(p: &str) -> (r: bool)
    ensures
        r == absolute_path(p@),
{
    std::path::Path::new(p).is_absolute()
}

pub open spec fn key_path_error(s: Seq<char>) -> Option<Seq<char>> {
    let t = trim_ws(s);
    if t.len() == 0 {
        Some("Key path must not be empty"@)
    } else if utf8_len(t) > MAX_KEY_PATH_LEN {
        Some("Key path must not exceed 1024 bytes"@)
    } else if has_dotdot(t) {
        Some("Key path must not contain .."@)
    } else if !absolute_path(t) {
        Some("Key path must be absolute"@)
    } else {
        None
    }
}

/// The first problem of a host record, in the order name, address, port,
/// user name, password, key path; `None` when it is acceptable.
pub open spec fn host_error(h: Host) -> Option<Seq<char>> {
    if name_error(h.name@) is Some {
        name_error(h.name@)
    } else if address_error(h.host@) is Some {
        address_error(h.host@)
    } else if port_error(h.port) is Some {
        port_error(h.port)
    } else if username_error(h.username@) is Some {
        username_error(h.username@)
    } else if h.password is Some && password_error(h.password->0@) is Some {
        password_error(h.password->0@)
    } else if h.key_path is Some && key_path_error(h.key_path->0@) is Some {
        key_path_error(h.key_path->0@)
    } else {
        None
    }
}

/// Rejects a trimmed field that is empty or longer than `max` bytes.
fn check_len(t: &Vec<char>, max: usize, empty_msg: &str, long_msg: &str) -> (r: Result<(), String>)
    requires
        max <= usize::MAX / 4,
    ensures
        t@.len() == 0 ==> (r matches Err(e) && e@ == empty_msg@),
        t@.len() > 0 && utf8_len(t@) > max ==> (r matches Err(e) && e@ == long_msg@),
        t@.len() > 0 && utf8_len(t@) <= max ==> r is Ok,
{
    if t.len() == 0 {
        return Err(String::from_str(empty_msg));
    }
    proof {
        lemma_utf8_len_bound(t@);
    }
    if t.len() > max {
        return Err(String::from_str(long_msg));
    }
    if utf8_length(t) > max {
        return Err(String::from_str(long_msg));
    }
    Ok(())
}

pub open spec fn agrees(r: Result<(), String>, problem: Option<Seq<char>>) -> bool {
    match r {
        Ok(_) => problem is None,
        Err(e) => problem == Some(e@),
    }
}

fn validate_name(name: &str) -> (r: Result<(), String>)
    ensures
        agrees(r, name_error(name@)),
{
    let t = trimmed(name);
    check_len(&t, MAX_NAME_LEN, "Host name must not be empty", "Host name must not exceed 128 bytes")
}

fn validate_host_address(host: &str) -> (r: Result<(), String>)
    ensures
        agrees(r, address_error(host@)),
{
    let t = trimmed(host);
    check_len(&t, MAX_HOST_LEN, "Host address must not be empty", "Host address must not exceed 256 bytes")?;
    if t.len() >= 7 && t[0] == 'f' && t[1] == 'i' && t[2] == 'l' && t[3] == 'e' && t[4] == ':'
        && t[5] == '/' && t[6] == '/' {
        assert(t@.subrange(0, 7) =~= file_scheme());
        return Err(String::from_str("The file:// scheme is not allowed"));
    }
    assert(!(t@.len() >= 7 && t@.subrange(0, 7) == file_scheme())) by {
        if t@.len() >= 7 && t@.subrange(0, 7) == file_scheme() {
            assert(t@.subrange(0, 7)[0] == 'f');
            assert(t@.subrange(0, 7)[1] == 'i');
            assert(t@.subrange(0, 7)[2] == 'l');
            assert(t@.subrange(0, 7)[3] == 'e');
            assert(t@.subrange(0, 7)[4] == ':');
            assert(t@.subrange(0, 7)[5] == '/');
            assert(t@.subrange(0, 7)[6] == '/');
        }
    }
    Ok(())
}

fn validate_port(port: u16) -> (r: Result<(), String>)
    ensures
        agrees(r, port_error(port)),
{
    if port == 0 {
        return Err(String::from_str("Port must not be 0"));
    }
    Ok(())
}

fn validate_username(username: &str) -> (r: Result<(), String>)
    ensures
        agrees(r, username_error(username@)),
{
    let t = trimmed(username);
    check_len(&t, MAX_USERNAME_LEN, "User name must not be empty", "User name must not exceed 128 bytes")
}

fn validate_password(password: &str) -> (r: Result<(), String>)
    ensures
        agrees(r, password_error(password@)),
{
    let v = chars_of(password);
    proof {
        lemma_utf8_len_bound(v@);
    }
    if v.len() > MAX_PASSWORD_LEN || utf8_length(&v) > MAX_PASSWORD_LEN {
        return Err(String::from_str("Password must not exceed 512 bytes"));
    }
    Ok(())
}

fn validate_key_path(key_path: &str) -> (r: Result<(), String>)
    ensures
        agrees(r, key_path_error(key_path@)),
{
    let t = trimmed(key_path);
    check_len(&t, MAX_KEY_PATH_LEN, "Key path must not be empty", "Key path must not exceed 1024 bytes")?;
    if contains_dotdot(&t) {
        return Err(String::from_str("Key path must not contain .."));
    }
    let text = string_of(&t, 0, t.len());
    assert(t@.subrange(0, t@.len() as int) =~= t@);
    if !path_is_absolute(text.as_str()) {
        return Err(String::from_str("Key path must be absolute"));
    }
    Ok(())
}

/// Checks a host record before it is stored: a name and a user name that
/// are not blank and not too long, an address that is not blank, not too
/// long and not a `file://` URL, a port other than 0, a password not too
/// long, and a key path, if given, that is absolute and free of `..`.
/// Reports the first problem found.
pub fn validate_host(host: &Host) -> (r: Result<(), String>)
    ensures
        agrees(r, host_error(*host)),
{
    validate_name(host.name.as_str())?;
    validate_host_address(host.host.as_str())?;
    validate_port(host.port)?;
    validate_username(host.username.as_str())?;
    match &host.password {
        Some(p) => validate_password(p.as_str())?,
        None => {},
    }
    match &host.key_path {
        Some(k) => validate_key_path(k.as_str())?,
        None => {},
    }
    Ok(())
}

/// What is wrong with a file name, if anything: it must be non-empty, hold
/// no `..`, `/` or `\`, and not be `.`.
pub open spec fn file_name_error(s: Seq<char>) -> Option<Seq<char>> {
    if s.len() == 0 {
        Some("File name must not be empty"@)
    } else if has_dotdot(s) || s.contains('/') || s.contains('\\') || s == seq!['.'] {
        Some("Invalid file name: "@ + s)
    } else {
        None
    }
}

/// Accepts a single path component that cannot climb out of its directory.
pub fn sanitize_filename(name: &str) -> (r: Result<String, String>)
    ensures
        r matches Ok(n) ==> file_name_error(name@) is None && n@ == name@,
        r matches Err(e) ==> file_name_error(name@) == Some(e@),
{
    let v = chars_of(name);
    if v.len() == 0 {
        return Err(String::from_str("File name must not be empty"));
    }
    if contains_dotdot(&v) || contains_char(&v, '/') || contains_char(&v, '\\') || (v.len() == 1 && v[0] == '.') {
        proof {
            if v@.len() == 1 && v@[0] == '.' {
                assert(v@ =~= seq!['.']);
            }
        }
        return Err(join_str("Invalid file name: ", name));
    }
    assert(name@ != seq!['.']) by {
        if name@ == seq!['.'] {
            assert(v@.len() == 1 && v@[0] == '.');
        }
    }
    Ok(String::from_str(name))
}

#[verifier::external_type_specification]
#[verifier::external_body]
pub struct ExPathBuf(std::path::PathBuf);

/// Relies on `Path::join`: `name` appended to `base` as one more component.
#[verifier::external_body]
fn join_path(base: &PathBuf, name: &str) -> (r: PathBuf) {
    base.join(name)
}

/// Relies on `Path::starts_with`: whether `base` is a leading run of whole
/// components of `p`.
#[verifier::external_body]
fn path_starts_with(p: &PathBuf, base: &PathBuf) -> (r: bool) {
    p.starts_with(base)
}

/// `base` joined with the file name `name`, refused when the name is not a
/// safe single component or the result would leave `base`.
pub fn safe_join(base: &PathBuf, name: &str) -> (r: Result<PathBuf, String>)
    ensures
        file_name_error(name@) is Some ==> (r matches Err(e) && file_name_error(name@) == Some(e@)),
        r is Ok ==> file_name_error(name@) is None,
{
    let sanitized = sanitize_filename(name)?;
    let result = join_path(base, sanitized.as_str());
    if path_starts_with(&result, base) {
        Ok(result)
    } else {
        Err(join_str("Path escapes its directory: ", name))
    }
}

} // verus!
