use vstd::prelude::*;

use crate::bytes::push_all;
use crate::error::Error;
use crate::file_ty::FileTy;

verus! {

/// The bytes `irec-`, which open every stored file's name.
pub open spec fn name_prefix() -> Seq<u8> {
    seq![105u8, 114u8, 101u8, 99u8, 45u8]
}

/// The bytes `.webm`, the extension of every stored file.
pub open spec fn extension() -> Seq<u8> {
    seq![46u8, 119u8, 101u8, 98u8, 109u8]
}

/// The bytes `.irec`, the base directory's name under the home directory.
pub open spec fn base_dir_name() -> Seq<u8> {
    seq![46u8, 105u8, 114u8, 101u8, 99u8]
}

/// The path separator `/`.
pub open spec fn separator() -> u8 {
    47u8
}

/// The hyphen `-`.
pub open spec fn hyphen() -> u8 {
    45u8
}

/// The decimal digits of `n`, most significant first, without leading zeros.
pub open spec fn decimal(n: nat) -> Seq<u8>
    decreases n,
{
    if n < 10 {
        seq![(48 + n) as u8]
    } else {
        decimal(n / 10).push((48 + n % 10) as u8)
    }
}

/// `component` appended to the path `base`, as a path push does it: a
/// separator goes between the two unless `base` is empty or already ends with
/// one.
pub open spec fn join(base: Seq<u8>, component: Seq<u8>) -> Seq<u8> {
    if base.len() == 0 || base.last() == separator() {
        base + component
    } else {
        base.push(separator()) + component
    }
}

/// The name of the file stored for `ft` at `timestamp_ns` nanoseconds after
/// the Unix epoch: `irec-<kind>-<timestamp_ns>`.
pub open spec fn file_name_of(ft: FileTy, timestamp_ns: nat) -> Seq<u8> {
    name_prefix() + ft.token().push(hyphen()) + decimal(timestamp_ns)
}

/// The directory that holds the files of `ft`: `<home>/.irec/<kind>`.
pub open spec fn dir_of(home: Seq<u8>, ft: FileTy) -> Seq<u8> {
    join(join(home, base_dir_name()), ft.token())
}

/// The full path of the file stored for `ft` at `timestamp_ns` in `dir`.
pub open spec fn file_path_of(dir: Seq<u8>, ft: FileTy, timestamp_ns: nat) -> Seq<u8> {
    join(dir, file_name_of(ft, timestamp_ns) + extension())
}

/// Every number has at least one digit, and only numbers below ten have
/// exactly one.
pub proof fn lemma_decimal_len(n: nat)
    ensures
        decimal(n).len() >= 1,
        n >= 10 ==> decimal(n).len() >= 2,
    decreases n,
{
    if n >= 10 {
        lemma_decimal_len(n / 10);
    }
}

/// Distinct numbers have distinct decimal digits.
pub proof fn lemma_decimal_injective(a: nat, b: nat)
    requires
        decimal(a) == decimal(b),
    ensures
        a == b,
    decreases a,
{
    lemma_decimal_len(a);
    lemma_decimal_len(b);
    if a < 10 && b < 10 {
        assert(decimal(a) == seq![(48 + a) as u8]);
        assert(decimal(b) == seq![(48 + b) as u8]);
        assert(seq![(48 + a) as u8][0] == (48 + a) as u8);
        assert(seq![(48 + b) as u8][0] == (48 + b) as u8);
        assert((48 + a) as u8 == (48 + b) as u8);
    } else if a >= 10 && b >= 10 {
        assert(decimal(a) == decimal(a / 10).push((48 + a % 10) as u8));
        assert(decimal(b) == decimal(b / 10).push((48 + b % 10) as u8));
        assert(decimal(a / 10).push((48 + a % 10) as u8).last() == (48 + a % 10) as u8);
        assert(decimal(b / 10).push((48 + b % 10) as u8).last() == (48 + b % 10) as u8);
        assert((48 + a % 10) as u8 == (48 + b % 10) as u8);
        assert(a % 10 == b % 10);
        assert(decimal(a).drop_last() == decimal(a / 10));
        assert(decimal(b).drop_last() == decimal(b / 10));
        lemma_decimal_injective(a / 10, b / 10);
        assert(a == 10 * (a / 10) + a % 10);
        assert(b == 10 * (b / 10) + b % 10);
    }
}

/// What precedes the timestamp in the path of a file of `ft` in `dir`.
pub open spec fn path_lead(dir: Seq<u8>, ft: FileTy) -> Seq<u8> {
    join(dir, name_prefix() + ft.token().push(hyphen()))
}

/// A file's path is its lead, its timestamp's digits and the extension.
pub proof fn lemma_path_shape(dir: Seq<u8>, ft: FileTy, t: nat)
    ensures
        file_path_of(dir, ft, t) == path_lead(dir, ft) + decimal(t) + extension(),
{
    let a = name_prefix() + ft.token().push(hyphen());
    assert(file_name_of(ft, t) + extension() == a + (decimal(t) + extension()));
    if dir.len() == 0 || dir.last() == separator() {
        assert(dir + (a + (decimal(t) + extension())) == dir + a + decimal(t) + extension());
    } else {
        let d = dir.push(separator());
        assert(d + (a + (decimal(t) + extension())) == d + a + decimal(t) + extension());
    }
}

/// Two sessions for the same kind that start at different nanosecond
/// timestamps write to different files: no session overwrites another's.
pub proof fn lemma_distinct_files(dir: Seq<u8>, ft: FileTy, t1: nat, t2: nat)
    requires
        t1 != t2,
    ensures
        file_path_of(dir, ft, t1) != file_path_of(dir, ft, t2),
{
    let lead = path_lead(dir, ft);
    let d1 = decimal(t1);
    let d2 = decimal(t2);
    lemma_path_shape(dir, ft, t1);
    lemma_path_shape(dir, ft, t2);
    let x1 = lead + d1 + extension();
    let x2 = lead + d2 + extension();
    if x1 == x2 {
        let k = lead.len() as int;
        assert(x1.len() == lead.len() + d1.len() + extension().len());
        assert(x2.len() == lead.len() + d2.len() + extension().len());
        assert(d1.len() == d2.len());
        assert forall|i: int| 0 <= i < d1.len() implies d1[i] == d2[i] by {
            assert(x1[k + i] == d1[i]);
            assert(x2[k + i] == d2[i]);
        }
        assert(d1 == d2);
        lemma_decimal_injective(t1, t2);
    }
}

/// Appends the decimal digits of `n` to `out`.
pub fn push_decimal(out: &mut Vec<u8>, n: u128)
    ensures
        final(out)@ == old(out)@ + decimal(n as nat),
    decreases n,
{
    if n >= 10 {
        push_decimal(out, n / 10);
    }
    let d: u8 = (n % 10) as u8;
    out.push(48u8 + d);
    assert(decimal(n as nat) == if n < 10 {
        seq![(48 + n) as u8]
    } else {
        decimal((n / 10) as nat).push((48 + n % 10) as u8)
    });
}

/// Appends `component` to the path `out`, with a separator between them
/// unless `out` is empty or already ends with one.
pub fn push_component(out: &mut Vec<u8>, component: &[u8])
    ensures
        final(out)@ == join(old(out)@, component@),
{
    let n: usize = out.len();
    if n != 0 && out[n - 1] != 47u8 {
        out.push(47u8);
    }
    push_all(out, component);
}

/// The name of the file stored for `ft` at `timestamp_ns` nanoseconds after
/// the Unix epoch, without its extension: `irec-<kind>-<timestamp_ns>`.
pub fn file_name(ft: FileTy, timestamp_ns: u128) -> (r: Vec<u8>)
    ensures
        r@ == file_name_of(ft, timestamp_ns as nat),
{
    let mut r: Vec<u8> = Vec::new();
    push_all(&mut r, &[105u8, 114u8, 101u8, 99u8, 45u8]);
    push_all(&mut r, ft.as_bytes());
    r.push(45u8);
    push_decimal(&mut r, timestamp_ns);
    assert(r@ == name_prefix() + ft.token().push(hyphen()) + decimal(timestamp_ns as nat));
    r
}

/// The directory that holds the files of `ft`, given the home directory
/// `home`: `<home>/.irec/<kind>`.
pub fn dir_in(home: &[u8], ft: FileTy) -> (r: Vec<u8>)
    ensures
        r@ == dir_of(home@, ft),
{
    let mut r: Vec<u8> = Vec::new();
    push_all(&mut r, home);
    assert(r@ == home@);
    push_component(&mut r, &[46u8, 105u8, 114u8, 101u8, 99u8]);
    push_component(&mut r, ft.as_bytes());
    r
}

/// The full path of the file stored for `ft` at `timestamp_ns` in the
/// directory `dir`: `<dir>/irec-<kind>-<timestamp_ns>.webm`.
pub fn file_path(dir: &[u8], ft: FileTy, timestamp_ns: u128) -> (r: Vec<u8>)
    ensures
        r@ == file_path_of(dir@, ft, timestamp_ns as nat),
{
    let mut name = file_name(ft, timestamp_ns);
    push_all(&mut name, &[46u8, 119u8, 101u8, 98u8, 109u8]);
    let mut r: Vec<u8> = Vec::new();
    push_all(&mut r, dir);
    assert(r@ == dir@);
    push_component(&mut r, name.as_slice());
    r
}

/// Relies on `home::home_dir`: the current user's home directory, if one can
/// be found, as the bytes of its path. What it returns depends on the process
/// environment and the user database, so nothing is promised of it.
#[verifier::external_body]
fn home_dir() -> (r: Option<Vec<u8>>) {
    home::home_dir().map(|p| p.into_os_string().into_encoded_bytes())
}

/// The directory that holds the files of `ft` under the current user's home
/// directory, or [`Error::UnknownHomeDirectory`] where none can be found.
pub fn irec_dir(ft: FileTy) -> (r: Result<Vec<u8>, Error>)
    ensures
        r matches Err(e) ==> e is UnknownHomeDirectory,
        r matches Ok(p) ==> exists|home: Seq<u8>| p@ == dir_of(home, ft),
{
    match home_dir() {
        Some(home) => Ok(dir_in(home.as_slice(), ft)),
        None => Err(Error::UnknownHomeDirectory),
    }
}

} // verus!
