//! What a failed CUDA device initialisation means for the user.
//!
//! The GPU backend reports a failed initialisation with an actionable reason.
//! The reason is chosen from the driver's error message.
use vstd::prelude::*;
use vstd::string::StringSliceAdditionalSpecFns;

verus! {

/// Why the CUDA device could not be initialised.
#[derive(Clone, Copy, Debug, PartialEq, Eq)]
pub enum GpuInitCause {
    /// The machine has no NVIDIA GPU.
    NoDevice,
    /// The NVIDIA driver is older than the CUDA runtime needs.
    DriverOutdated,
    /// The CUDA runtime library is not installed.
    RuntimeMissing,
    /// Any other failure.
    Other,
}

/// `needle` occurs in `hay` starting at byte `i`.
pub open spec fn occurs_at(hay: Seq<u8>, needle: Seq<u8>, i: int) -> bool {
    0 <= i && i + needle.len() <= hay.len() && hay.subrange(i, i + needle.len()) == needle
}

/// `needle` occurs somewhere in `hay`.
pub open spec fn occurs_in(hay: Seq<u8>, needle: Seq<u8>) -> bool {
    exists|i: int| occurs_at(hay, needle, i)
}

/// Whether `needle` occurs in `hay` starting at byte `i`.
fn matches_at(hay: &[u8], needle: &[u8], i: usize) -> (r: bool)
    requires
        i + needle@.len() <= hay@.len(),
    ensures
        r == occurs_at(hay@, needle@, i as int),
{
    let nl = needle.len();
    let hl = hay.len();
    let mut j: usize = 0;
    while j < nl
        invariant
            nl == needle@.len(),
            hl == hay@.len(),
            i + needle@.len() <= hay@.len(),
            j <= needle@.len(),
            forall|m: int| 0 <= m < j ==> hay@[i + m] == needle@[m],
        decreases needle@.len() - j,
    {
        if hay[i + j] != needle[j] {
            assert(hay@.subrange(i as int, i + needle@.len())[j as int] != needle@[j as int]);
            return false;
        }
        j += 1;
    }
    assert(hay@.subrange(i as int, i + needle@.len()) =~= needle@);
    true
}

/// Whether `needle` occurs in `hay`.
fn contains_bytes(hay: &[u8], needle: &[u8]) -> (r: bool)
    ensures
        r == occurs_in(hay@, needle@),
{
    if needle.len() > hay.len() {
        assert forall|i: int| !occurs_at(hay@, needle@, i) by {}
        return false;
    }
    if needle.len() == 0 {
        assert(hay@.subrange(0, 0) =~= needle@);
        assert(occurs_at(hay@, needle@, 0));
        return true;
    }
    let hl = hay.len();
    let last = hl - needle.len();
    let mut i: usize = 0;
    while i <= last
        invariant
            hl == hay@.len(),
            last == hay@.len() - needle@.len(),
            needle@.len() > 0,
            i <= last + 1,
            forall|k: int| 0 <= k < i ==> !#[trigger] occurs_at(hay@, needle@, k),
        decreases last + 1 - i,
    {
        if matches_at(hay, needle, i) {
            return true;
        }
        i += 1;
    }
    assert forall|k: int| !occurs_at(hay@, needle@, k) by {
        if 0 <= k && k < i {
        }
    }
    false
}

/// The cause of a failed initialisation, read from the driver's message:
/// a missing device first, then an outdated driver, then a missing runtime
/// library (`libcuda.so` or `nvcuda.dll`).
pub fn classify_gpu_init_error(message: &str) -> (r: GpuInitCause)
    ensures
        occurs_in(message.spec_bytes(), "no CUDA-capable device".spec_bytes()) ==> r
            == GpuInitCause::NoDevice,
        !occurs_in(message.spec_bytes(), "no CUDA-capable device".spec_bytes()) && occurs_in(
            message.spec_bytes(),
            "CUDA driver version is insufficient".spec_bytes(),
        ) ==> r == GpuInitCause::DriverOutdated,
        !occurs_in(message.spec_bytes(), "no CUDA-capable device".spec_bytes()) && !occurs_in(
            message.spec_bytes(),
            "CUDA driver version is insufficient".spec_bytes(),
        ) && (occurs_in(message.spec_bytes(), "libcuda.so".spec_bytes()) || occurs_in(
            message.spec_bytes(),
            "nvcuda.dll".spec_bytes(),
        )) ==> r == GpuInitCause::RuntimeMissing,
        !occurs_in(message.spec_bytes(), "no CUDA-capable device".spec_bytes()) && !occurs_in(
            message.spec_bytes(),
            "CUDA driver version is insufficient".spec_bytes(),
        ) && !occurs_in(message.spec_bytes(), "libcuda.so".spec_bytes()) && !occurs_in(
            message.spec_bytes(),
            "nvcuda.dll".spec_bytes(),
        ) ==> r == GpuInitCause::Other,
{
    let hay = message.as_bytes();
    if contains_bytes(hay, "no CUDA-capable device".as_bytes()) {
        GpuInitCause::NoDevice
    } else if contains_bytes(hay, "CUDA driver version is insufficient".as_bytes()) {
        GpuInitCause::DriverOutdated
    } else if contains_bytes(hay, "libcuda.so".as_bytes()) || contains_bytes(
        hay,
        "nvcuda.dll".as_bytes(),
    ) {
        GpuInitCause::RuntimeMissing
    } else {
        GpuInitCause::Other
    }
}

impl GpuInitCause {
    /// The reason shown to the user, for every cause but `Other`, whose
    /// reason names the device and the driver's message.
    pub fn reason(&self) -> (r: Option<&'static str>)
        ensures
            *self == GpuInitCause::NoDevice ==> (r matches Some(s) && s@
                == "No NVIDIA GPU detected"@),
            *self == GpuInitCause::DriverOutdated ==> (r matches Some(s) && s@
                == "CUDA driver outdated — update NVIDIA drivers"@),
            *self == GpuInitCause::RuntimeMissing ==> (r matches Some(s) && s@
                == "CUDA runtime library not found — install CUDA Toolkit"@),
            *self == GpuInitCause::Other ==> r is None,
    {
        match self {
            GpuInitCause::NoDevice => Some("No NVIDIA GPU detected"),
            GpuInitCause::DriverOutdated => Some("CUDA driver outdated — update NVIDIA drivers"),
            GpuInitCause::RuntimeMissing => Some(
                "CUDA runtime library not found — install CUDA Toolkit",
            ),
            GpuInitCause::Other => None,
        }
    }
}

} // verus!
