//! The handlers behind the filesystem protocol entry points that touch the
//! hardware: each one applies the refresh policy (rebuild on device-count
//! drift) and then serves the query from the namespace store. Attribute
//! retrieval, reads and releases never touch the hardware and are served by
//! the store directly.

use vstd::prelude::*;
use nvml_wrapper::Nvml;
use crate::fs_core::Attr;
use crate::fs_core::DirEntry;
use crate::fs_core::NvSensorFs;
use crate::fs_core::spec_entry_ok;
use crate::sensors::SampleError;
use crate::sensors::Sensor;
use crate::sensors::SensorKind;
use crate::sensors::spec_kind_name;
use crate::sensors::catalog_shaped;
use crate::fs_core::spec_rebuilt;
use crate::sensors::lemma_catalog_names_distinct;
use crate::fs_core::catalog_names_distinct;

verus! {

/// The refresh policy: asks the driver how many devices exist now and, if
/// the count differs from the last-known one, re-enumerates every device's
/// catalog and replaces the whole namespace. With an unchanged count this is
/// a no-op, so the store — and everything resolved against it — is left
/// exactly as it was.
#[verifier::loop_isolation(false)]
pub fn update_sensors(fs: &mut NvSensorFs, nvml: &Nvml)
    requires
        old(fs).wf(),
    ensures
        final(fs).wf(),
        final(fs).file_content@ == old(fs).file_content@,
        final(fs).last_file_handle == old(fs).last_file_handle,
        *final(fs) == *old(fs) || final(fs).device_count != old(fs).device_count,
        *final(fs) == *old(fs) || exists|c: u32, cats: Seq<Seq<SensorKind>>|
            {
                &&& c != old(fs).device_count
                &&& cats.len() == c as int
                &&& forall|t: int| 0 <= t < cats.len() ==> catalog_shaped(#[trigger] cats[t])
                &&& #[trigger] spec_rebuilt(*old(fs), *final(fs), c, cats)
            },
{
    let current_device_count = fs.device_count;
    let new_device_count = match crate::nvml_api::device_count(nvml) {
        Ok(c) => c,
        Err(_) => 0,
    };
    if current_device_count == new_device_count {
        return ;
    }

    let mut catalogs: Vec<Vec<SensorKind>> = Vec::new();
    let mut i: u32 = 0;
    while i < new_device_count
        invariant
            i <= new_device_count,
            catalogs@.len() == i as int,
            forall|t: int|
                0 <= t < i as int ==> catalog_names_distinct(#[trigger] catalogs@[t]@),
            forall|t: int| 0 <= t < i as int ==> catalog_shaped(#[trigger] catalogs@[t]@),
        decreases new_device_count - i,
    {
        let sensors = Sensor::create_all(nvml, i);
        let mut kinds: Vec<SensorKind> = Vec::new();
        let mut j: usize = 0;
        while j < sensors.len()
            invariant
                j <= sensors@.len(),
                kinds@.len() == j as int,
                forall|t: int| 0 <= t < j as int ==> #[trigger] kinds@[t] == sensors@[t].kind,
            decreases sensors@.len() - j,
        {
            kinds.push(sensors[j].kind);
            j = j + 1;
        }
        proof {
            assert forall|s1: int, s2: int| 0 <= s1 < s2 < kinds@.len() implies spec_kind_name(
                #[trigger] kinds@[s1],
            ) != spec_kind_name(#[trigger] kinds@[s2]) by {
                assert(kinds@[s1] == sensors@[s1].kind);
                assert(kinds@[s2] == sensors@[s2].kind);
            }
        }
        proof {
            assert(catalog_shaped(kinds@));
        }
        catalogs.push(kinds);
        i = i + 1;
    }
    let rebuilt = fs.rebuild(new_device_count, &catalogs);
    proof {
        if rebuilt {
            let ghost cats = crate::fs_core::cats_view(catalogs@);
            assert(forall|t: int| 0 <= t < cats.len() ==> catalog_shaped(#[trigger] cats[t]));
            assert(spec_rebuilt(*old(fs), *fs, new_device_count, cats));
        }
    }
}

/// The lookup protocol call: refresh, then resolve the name under its parent
/// and report the entry's fixed metadata; `None` stands for the protocol's
/// "not found" reply.
pub fn lookup(fs: &mut NvSensorFs, nvml: &Nvml, parent: u64, name: &String) -> (r: Option<Attr>)
    requires
        old(fs).wf(),
    ensures
        final(fs).wf(),
        final(fs).file_content@ == old(fs).file_content@,
        *final(fs) == *old(fs) || final(fs).device_count != old(fs).device_count,
        match final(fs).spec_resolve(parent, name@) {
            Some(id) => r == final(fs).spec_attributes(id),
            None => r == None::<Attr>,
        },
{
    update_sensors(fs, nvml);
    fs.lookup(parent, name)
}

/// The readdir protocol call: refresh, then list the directory from the
/// given cursor; `None` stands for the protocol's "not found" reply.
pub fn readdir(fs: &mut NvSensorFs, nvml: &Nvml, ino: u64, offset: usize) -> (r: Option<
    Vec<DirEntry>,
>)
    requires
        old(fs).wf(),
    ensures
        final(fs).wf(),
        final(fs).file_content@ == old(fs).file_content@,
        *final(fs) == *old(fs) || final(fs).device_count != old(fs).device_count,
        match r {
            Some(v) => {
                let ch = final(fs).spec_children_ids(ino);
                &&& final(fs).spec_is_directory(ino)
                &&& v@.len() == if offset <= ch.len() {
                    ch.len() - offset
                } else {
                    0
                }
                &&& forall|t: int|
                    0 <= t < v@.len() ==> spec_entry_ok(
                        *final(fs),
                        ch,
                        offset as int,
                        t,
                        #[trigger] v@[t],
                    )
            },
            None => !final(fs).spec_is_directory(ino),
        },
{
    update_sensors(fs, nvml);
    fs.children_of(ino, offset)
}

/// The open protocol call: resolve the identifier to its sensor, sample that
/// sensor once, and register the rendered text under a fresh file handle. A
/// sampling failure still opens the file (its content is then the `N/A`
/// line); a failure that is not "unsupported" additionally re-checks the
/// topology. `None` stands for the protocol's "not found" reply; for a
/// resolvable sensor file it can only mean handle-space exhaustion.
pub fn open(fs: &mut NvSensorFs, nvml: &Nvml, ino: u64) -> (r: Option<u64>)
    requires
        old(fs).wf(),
    ensures
        final(fs).wf(),
        (!old(fs).ns().contains_key(ino) || old(fs).spec_is_directory(ino)) ==> r == None::<u64>
            && *final(fs) == *old(fs),
        old(fs).ns().contains_key(ino) && !old(fs).spec_is_directory(ino) && old(
            fs,
        ).last_file_handle < u64::MAX ==> (r matches Some(h) && h == old(fs).last_file_handle + 1),
        match r {
            Some(h) => {
                &&& final(fs).file_content@.contains_key(h)
                &&& h == old(fs).last_file_handle + 1
                &&& final(fs).last_file_handle == h
                &&& exists|s: Result<Seq<u8>, SampleError>|
                    final(fs).file_content@[h]@ == crate::fs_core::spec_render_content(s)
                &&& forall|k: u64|
                    k != h && old(fs).file_content@.contains_key(k)
                        ==> #[trigger] final(fs).file_content@[k] == old(fs).file_content@[k]
            },
            None => final(fs).file_content@ == old(fs).file_content@,
        },
{
    let sensor = match fs.open_sensor(ino) {
        Ok(s) => s,
        Err(_) => {
            return None;
        },
    };

    let value = sensor.get_value(nvml);
    match &value {
        Err(SampleError::Hardware) => {
            update_sensors(fs, nvml);
        },
        _ => {},
    }

    let ghost sample_view = crate::fs_core::view_sample(value);
    match fs.register_content(value) {
        Some(h) => {
            proof {
                assert(final(fs).file_content@[h]@ == crate::fs_core::spec_render_content(
                    sample_view,
                ));
            }
            Some(h)
        },
        None => None,
    }
}

} // verus!
