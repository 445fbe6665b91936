//! File-system locations as the bytes of a Unix path: joining path
//! components, and the home and cache directories of the user.
use vstd::prelude::*;
use vstd::utf8::encode_utf8;

verus! {

/// The byte of `/`, the path separator.
pub open spec fn sep_byte() -> u8 {
    47u8
}

/// `base` extended by the component `comp`, as `PathBuf::push` does on Unix:
/// an absolute `comp` replaces `base`; otherwise a `/` is put between them
/// unless `base` is empty or already ends with one.
pub open spec fn path_join(base: Seq<u8>, comp: Seq<u8>) -> Seq<u8> {
    if comp.len() > 0 && comp[0] == sep_byte() {
        comp
    } else if base.len() == 0 || base.last() == sep_byte() {
        base + comp
    } else {
        base + seq![sep_byte()] + comp
    }
}

/// The bytes of an optional path.
pub open spec fn opt_bytes(o: Option<Vec<u8>>) -> Option<Seq<u8>> {
    match o {
        Some(b) => Some(b@),
        None => None,
    }
}

/// A copy of the bytes `b`.
pub fn copy_bytes(b: &[u8]) -> (r: Vec<u8>)
    ensures
        r@ == b@,
{
    let mut r: Vec<u8> = Vec::new();
    let mut i: usize = 0;
    while i < b.len()
        invariant
            i <= b@.len(),
            r@ == b@.take(i as int),
        decreases b@.len() - i,
    {
        r.push(b[i]);
        i = i + 1;
        assert(r@ =~= b@.take(i as int));
    }
    assert(b@.take(b@.len() as int) =~= b@);
    r
}

/// The path named by a text: its UTF-8 bytes (as `PathBuf::from` takes a
/// `String`).
pub fn path_of_text(s: &str) -> (r: Vec<u8>)
    ensures
        r@ == encode_utf8(s@),
{
    copy_bytes(s.as_bytes())
}

/// `base` extended by the component `comp`.
pub fn join_path(base: &[u8], comp: &[u8]) -> (r: Vec<u8>)
    ensures
        r@ == path_join(base@, comp@),
{
    if comp.len() > 0 && comp[0] == 47u8 {
        return copy_bytes(comp);
    }
    let mut out = copy_bytes(base);
    if !(base.len() == 0 || base[base.len() - 1] == 47u8) {
        out.push(47u8);
    }
    let c = copy_bytes(comp);
    let ghost before = out@;
    let mut i: usize = 0;
    while i < c.len()
        invariant
            i <= c@.len(),
            out@ == before + c@.take(i as int),
        decreases c@.len() - i,
    {
        out.push(c[i]);
        i = i + 1;
        assert(out@ =~= before + c@.take(i as int));
    }
    assert(c@.take(c@.len() as int) =~= c@);
    assert(out@ =~= path_join(base@, comp@));
    out
}

/// `base` extended by the component named by the text `comp`.
pub fn join_text(base: &[u8], comp: &str) -> (r: Vec<u8>)
    ensures
        r@ == path_join(base@, encode_utf8(comp@)),
{
    let c = path_of_text(comp);
    join_path(base, c.as_slice())
}

/// Why a location could not be determined.
#[derive(Debug, Clone, Copy, PartialEq, Eq, Structural)]
pub enum PathError {
    /// The home directory of the user is unknown.
    NoHomeDirectory,
    /// The cache directory of the user is unknown.
    NoCacheDirectory,
}

/// Calls `dirs::home_dir`, which reads `HOME` (or the password database);
/// the path is handed back as its bytes, unchanged. What the directory is
/// depends on the environment, so nothing is stated of it.
#[verifier::external_body]
pub(crate) fn home_dir() -> (r: Option<Vec<u8>>) {
    match dirs::home_dir() {
        Some(p) => Some(p.into_os_string().into_encoded_bytes()),
        None => None,
    }
}

/// Calls `dirs::cache_dir`, which reads `XDG_CACHE_HOME` (or falls back to
/// `~/.cache`); the path is handed back as its bytes, unchanged. What the
/// directory is depends on the environment, so nothing is stated of it.
#[verifier::external_body]
pub(crate) fn cache_dir() -> (r: Option<Vec<u8>>) {
    match dirs::cache_dir() {
        Some(p) => Some(p.into_os_string().into_encoded_bytes()),
        None => None,
    }
}

} // verus!
