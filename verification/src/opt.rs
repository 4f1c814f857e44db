use vstd::prelude::*;

use vstd::slice::slice_to_vec;
use vstd::utf8::encode_utf8;

verus! {

/// One typed configuration value for the native engine's variadic
/// option call: the closed set of shapes the engine accepts.
pub enum OptValue {
    /// A text value, handed over as a NUL-terminated byte buffer.
    Str(String),
    /// An integer value, handed over as a signed word.
    Long(i64),
    /// An opaque context pointer, carried as its address word.
    Ptr(usize),
    /// A callback function pointer, carried as its address word.
    FunctionPtr(usize),
}

/// The marshaled representation a native variadic call receives.
#[derive(Debug, PartialEq, Eq)]
pub enum NativeArg {
    /// The bytes of a text value with a terminating NUL.
    CStr(Vec<u8>),
    /// A signed integer word.
    Long(i64),
    /// An address-sized word, for context and function pointers.
    Word(usize),
}

/// Whether the buffer holds a NUL byte anywhere.
fn has_nul(v: &Vec<u8>) -> (r: bool)
    ensures
        r <==> (exists|i: int| 0 <= i < v@.len() && v@[i] == 0),
{
    let n = v.len();
    let mut i: usize = 0;
    while i < n
        invariant
            n == v@.len(),
            i <= n,
            forall|j: int| 0 <= j < i ==> v@[j] != 0,
        decreases n - i,
    {
        if v[i] == 0 {
            return true;
        }
        i += 1;
    }
    false
}

/// Marshals one typed option value into the representation the native
/// call expects. A text value becomes its encoded bytes with one
/// terminating NUL; that representation does not exist when the text
/// itself holds a NUL byte, which `None` reports.
pub fn marshal(val: &OptValue) -> (r: Option<NativeArg>)
    ensures
        val matches OptValue::Long(n) ==> r == Some(NativeArg::Long(*n)),
        val matches OptValue::Ptr(p) ==> r == Some(NativeArg::Word(*p)),
        val matches OptValue::FunctionPtr(p) ==> r == Some(NativeArg::Word(*p)),
        val matches OptValue::Str(s) ==> {
            let eb = encode_utf8(s@);
            &&& (r is Some <==> (forall|i: int| 0 <= i < eb.len() ==> eb[i] != 0))
            &&& (r matches Some(a) ==> (a matches NativeArg::CStr(b) && b@ == eb.push(0u8)))
        },
{
    match val {
        OptValue::Str(s) => {
            let bytes = s.as_str().as_bytes();
            let mut buf = slice_to_vec(bytes);
            if has_nul(&buf) {
                None
            } else {
                buf.push(0u8);
                Some(NativeArg::CStr(buf))
            }
        },
        OptValue::Long(n) => Some(NativeArg::Long(*n)),
        OptValue::Ptr(p) => Some(NativeArg::Word(*p)),
        OptValue::FunctionPtr(p) => Some(NativeArg::Word(*p)),
    }
}

} // verus!
