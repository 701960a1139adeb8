//! The microphone list for Settings. The app enumerates the WASAPI input
//! devices; this module marks the default and words the failures.

use vstd::prelude::*;
use crate::text::{chars_of, push_str, str_eq, string_from, string_of, trim, trim_chars};

verus! {

#[derive(Clone, Debug, PartialEq, Eq)]
pub struct InputDevice {
    pub name: String,
    pub is_default: bool,
}

pub const NO_MICROPHONE: &'static str = "No microphone was found.";

/// The devices that have a name, in order, each marked default when its
/// name is the default input's.
pub open spec fn devices_spec(default_name: Option<Seq<char>>, names: Seq<Option<Seq<char>>>) -> Seq<(Seq<char>, bool)>
    decreases names.len(),
{
    if names.len() == 0 {
        seq![]
    } else {
        let before = devices_spec(default_name, names.drop_last());
        match names.last() {
            Some(n) => before.push((n, default_name == Some(n))),
            None => before,
        }
    }
}

pub open spec fn device_views(v: Seq<InputDevice>) -> Seq<(Seq<char>, bool)> {
    v.map_values(|d: InputDevice| (d.name@, d.is_default))
}

pub open spec fn name_views(v: Seq<Option<String>>) -> Seq<Option<Seq<char>>> {
    v.map_values(|n: Option<String>| match n {
        Some(s) => Some(s@),
        None => None,
    })
}

/// The input devices, from the app's enumeration: `Err` when it failed,
/// and a `None` name for a device whose name could not be read (skipped).
/// Off Windows the default microphone stands for all.
pub fn list_input_devices(on_windows: bool, default_name: Option<&str>, enumerated: Result<Vec<Option<String>>, String>) -> (r: Result<Vec<InputDevice>, String>)
    ensures
        !on_windows ==> (r matches Ok(v) && device_views(v@) == seq![("Default microphone"@, true)]),
        on_windows ==> match enumerated {
            Err(e) => (r matches Err(m) && m@ == "Could not enumerate microphones: "@ + e@),
            Ok(names) => {
                let d = devices_spec(
                    match default_name {
                        Some(n) => Some(n@),
                        None => None,
                    },
                    name_views(names@),
                );
                if d.len() == 0 {
                    (r matches Err(m) && m@ == NO_MICROPHONE@)
                } else {
                    (r matches Ok(v) && device_views(v@) == d)
                }
            },
        },
{
    if !on_windows {
        let v = vec![InputDevice { name: string_from("Default microphone"), is_default: true }];
        assert(device_views(v@) =~= seq![("Default microphone"@, true)]);
        return Ok(v);
    }
    let names = match enumerated {
        Err(e) => {
            let mut m: Vec<char> = Vec::new();
            push_str(&mut m, "Could not enumerate microphones: ");
            push_str(&mut m, e.as_str());
            return Err(string_of(&m));
        },
        Ok(names) => names,
    };
    let ghost dn = match default_name {
        Some(n) => Some(n@),
        None => None,
    };
    let ghost nv = name_views(names@);
    let mut devices: Vec<InputDevice> = Vec::new();
    let mut i: usize = 0;
    assert(nv.take(0) =~= Seq::<Option<Seq<char>>>::empty());
    assert(device_views(devices@) =~= Seq::<(Seq<char>, bool)>::empty());
    while i < names.len()
        invariant
            i <= names@.len(),
            nv == name_views(names@),
            nv.len() == names@.len(),
            dn == match default_name {
                Some(n) => Some(n@),
                None => None,
            },
            device_views(devices@) == devices_spec(dn, nv.take(i as int)),
        decreases names@.len() - i,
    {
        assert(nv.take(i + 1).drop_last() =~= nv.take(i as int));
        match &names[i] {
            None => {
                assert(nv.take(i + 1).last() is None);
            },
            Some(n) => {
                assert(nv.take(i + 1).last() == Some(n@));
                let is_default = match default_name {
                    Some(d) => str_eq(d, n.as_str()),
                    None => false,
                };
                let ghost before = device_views(devices@);
                devices.push(InputDevice { name: string_from(n.as_str()), is_default });
                assert(device_views(devices@) =~= before.push((n@, dn == Some(n@))));
            },
        }
        i += 1;
    }
    assert(nv.take(names@.len() as int) =~= nv);
    if devices.len() == 0 {
        return Err(string_from(NO_MICROPHONE));
    }
    Ok(devices)
}

/// The microphone a take asks for: the saved one when a name is saved,
/// else the system's default input (`default_name`, read by the caller),
/// if there is one.
pub fn requested_device(saved: &str, default_name: Option<String>) -> (r: Option<String>)
    ensures
        trim(saved@).len() > 0 ==> (r matches Some(n) && n@ == saved@),
        trim(saved@).len() == 0 ==> r == default_name,
{
    let v = chars_of(saved);
    if trim_chars(&v).len() > 0 {
        Some(string_from(saved))
    } else {
        default_name
    }
}

} // verus!
