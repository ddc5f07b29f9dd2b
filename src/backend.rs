use vstd::prelude::*;

verus! {

/// The marker that the backup utility prints first for an excluded path.
pub open spec fn excluded_marker() -> Seq<char> {
    "[Excluded]"@
}

/// `s` without its leading and trailing whitespace, as `str::trim` gives it.
pub uninterp spec fn trimmed(s: Seq<char>) -> Seq<char>;

/// Relies on `str::trim`: strips leading and trailing whitespace.
#[verifier::external_body]
fn trim_text(s: &str) -> (r: String)
    ensures
        r@ == trimmed(s@),
        s@.len() == 0 ==> r@.len() == 0,
{
    s.trim().to_string()
}

/// Whether a path whose extended attributes are named `attributes` carries
/// the exclusion attribute `key`.
pub fn already_excluded(key: &str, attributes: &Vec<String>) -> (r: bool)
    ensures
        r == exists|i: int| 0 <= i < attributes@.len() && #[trigger] attributes@[i]@ == key@,
{
    let k = key.to_owned();
    let mut i: usize = 0;
    while i < attributes.len()
        invariant
            i <= attributes@.len(),
            k@ == key@,
            forall|t: int| 0 <= t < i ==> #[trigger] attributes@[t]@ != key@,
        decreases attributes@.len() - i,
    {
        if attributes[i] == k {
            return true;
        }
        i += 1;
    }
    false
}

/// Whether the backup utility's answer to an exclusion query, `output`,
/// reports the path as excluded: the answer starts with the marker.
pub fn is_already_excluded(output: &str) -> (r: bool)
    ensures
        r == excluded_marker().is_prefix_of(output@),
{
    let marker = "[Excluded]";
    proof {
        reveal_strlit("[Excluded]");
    }
    let m = marker.unicode_len();
    let n = output.unicode_len();
    if n < m {
        return false;
    }
    let mut k: usize = 0;
    while k < m
        invariant
            k <= m,
            m == marker@.len(),
            marker@ == excluded_marker(),
            m <= n,
            n == output@.len(),
            forall|t: int| 0 <= t < k ==> marker@[t] == output@[t],
        decreases m - k,
    {
        if marker.get_char(k) != output.get_char(k) {
            assert(marker@ == excluded_marker());
            assert(!excluded_marker().is_prefix_of(output@)) by {
                if excluded_marker().is_prefix_of(output@) {
                    assert(excluded_marker() =~= output@.subrange(0, m as int));
                    assert(output@.subrange(0, m as int)[k as int] == output@[k as int]);
                }
            }
            return false;
        }
        k += 1;
    }
    assert(marker@ =~= output@.subrange(0, m as int));
    true
}

/// The part of `s` before its first tab; all of `s` when it holds none.
pub open spec fn first_field(s: Seq<char>) -> Seq<char> {
    if exists|i: int| 0 <= i < s.len() && s[i] == '\t' {
        let i = choose|i: int|
            0 <= i < s.len() && s[i] == '\t' && forall|t: int| 0 <= t < i ==> s[t] != '\t';
        s.take(i)
    } else {
        s
    }
}

/// The human-readable size in the disk-usage tool's answer `output`: its
/// first tab-separated field, trimmed.
pub fn size_of_path(output: &str) -> (r: String)
    ensures
        r@ == trimmed(first_field(output@)),
{
    let n = output.unicode_len();
    let mut k: usize = 0;
    while k < n && output.get_char(k) != '\t'
        invariant
            k <= n,
            n == output@.len(),
            forall|t: int| 0 <= t < k ==> output@[t] != '\t',
        decreases n - k,
    {
        k += 1;
    }
    let field = output.substring_char(0, k);
    proof {
        if k < n {
            assert(output@[k as int] == '\t');
            let i = choose|i: int|
                0 <= i < output@.len() && output@[i] == '\t' && forall|t: int|
                    0 <= t < i ==> output@[t] != '\t';
            if i < k {
            } else if i > k {
                assert(output@[k as int] != '\t');
            }
            assert(i == k);
        }
        assert(field@ =~= first_field(output@));
    }
    trim_text(field)
}

} // verus!
