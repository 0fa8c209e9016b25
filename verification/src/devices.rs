//! Microphone choice: the device list offered to the user and the device a recording
//! opens.
use crate::text::{is_blank, push_str, str_eq, trim, trim_string};
use vstd::prelude::*;

verus! {

/// A selectable input device; the empty id means the system default.
pub struct AudioInputDevice {
    pub id: String,
    pub label: String,
}

/// The device list: the system default first, then each named device by its name.
pub fn device_list(names: Vec<String>) -> (r: Vec<AudioInputDevice>)
    ensures
        r@.len() == names@.len() + 1,
        r@[0].id@.len() == 0,
        r@[0].label@ == "System default"@,
        forall|i: int|
            0 <= i < names@.len() ==> r@[i + 1].id@ == names@[i]@ && r@[i + 1].label@ == names@[i]@,
{
    let mut v: Vec<AudioInputDevice> = Vec::new();
    v.push(AudioInputDevice { id: String::new(), label: "System default".to_owned() });
    let mut rest = names;
    let ghost orig = rest@;
    let mut k: usize = 0;
    let n = rest.len();
    assert(orig.skip(0) =~= orig);
    while k < n
        invariant
            n == orig.len(),
            k <= n,
            rest@ == orig.skip(k as int),
            v@.len() == k + 1,
            v@[0].id@.len() == 0,
            v@[0].label@ == "System default"@,
            forall|i: int| 0 <= i < k ==> v@[i + 1].id@ == orig[i]@ && v@[i + 1].label@ == orig[i]@,
        decreases n - k,
    {
        let name = rest.remove(0);
        assert(orig.skip(k as int).remove(0) =~= orig.skip(k + 1));
        v.push(AudioInputDevice { id: name.clone(), label: name });
        k = k + 1;
    }
    v
}

/// Which device a recording opens: `Ok(None)` for the system default (no name or a blank
/// one), `Ok(Some(i))` for the first device named exactly as the trimmed name, and an error
/// naming the microphone when none is.
pub fn resolve_input_device(names: &[String], wanted: Option<&str>) -> (r: Result<Option<usize>, String>)
    ensures
        match wanted {
            None => r == Ok::<Option<usize>, String>(None),
            Some(w) => if trim(w@).len() == 0 {
                r == Ok::<Option<usize>, String>(None)
            } else {
                match r {
                    Ok(Some(i)) => i < names@.len() && names@[i as int]@ == trim(w@) && forall|k: int|
                        0 <= k < i ==> names@[k]@ != trim(w@),
                    Ok(None) => false,
                    Err(e) => e@ == "Microphone not found: "@ + trim(w@) && forall|k: int|
                        0 <= k < names@.len() ==> names@[k]@ != trim(w@),
                }
            },
        },
{
    let w = match wanted {
        None => {
            return Ok(None);
        },
        Some(w) => w,
    };
    let n = trim_string(w);
    if n.as_str().is_empty() {
        return Ok(None);
    }
    for i in 0..names.len()
        invariant
            wanted == Some(w),
            trim(w@).len() > 0,
            n@ == trim(w@),
            forall|k: int| 0 <= k < i ==> names@[k]@ != trim(w@),
    {
        if str_eq(names[i].as_str(), n.as_str()) {
            return Ok(Some(i));
        }
    }
    let mut e = "Microphone not found: ".to_owned();
    push_str(&mut e, n.as_str());
    Err(e)
}

} // verus!
