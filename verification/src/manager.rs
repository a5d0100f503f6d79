//! The device registry.
//!
//! Built once from the configuration, the registry maps each device name to
//! one owned device entry and hands out handles (indices) to the rest of
//! the engine.  It fails fast on duplicate names, resolves selectors in a
//! deterministic order, and tracks an exclusive lease per device so that no
//! two operations run on the same handle concurrently.

use vstd::prelude::*;
use crate::config::{str_eq, name_of, unique_names, CaptureDeviceConfig, MasterConfig};
use crate::errors::AppError;
use crate::text;

verus! {

/// Name-unique table of device entries plus the per-device lease flags.
pub struct CameraManager {
    pub devices: Vec<CaptureDeviceConfig>,
    pub leased: Vec<bool>,
}

/// Some device in the table carries this name.
pub open spec fn has_device(devices: Seq<CaptureDeviceConfig>, name: Seq<char>) -> bool {
    exists|i: int| 0 <= i < devices.len() && name_of(#[trigger] devices[i]) == name
}

/// The index registered under this name (meaningful when `has_device`).
pub open spec fn device_index(devices: Seq<CaptureDeviceConfig>, name: Seq<char>) -> int {
    choose|i: int| 0 <= i < devices.len() && name_of(#[trigger] devices[i]) == name
}

/// The requested name at position `t` was not requested before.
pub open spec fn first_occurrence(names: Seq<Seq<char>>, t: int) -> bool {
    forall|k: int| 0 <= k < t ==> names[k] != names[t]
}

/// The handles a selector resolves to: requested order, de-duplicated,
/// unknown names skipped.
pub open spec fn resolve_spec(devices: Seq<CaptureDeviceConfig>, names: Seq<Seq<char>>) -> Seq<int>
    decreases names.len(),
{
    if names.len() == 0 {
        Seq::empty()
    } else {
        let prefix = resolve_spec(devices, names.drop_last());
        let t = names.len() - 1;
        if first_occurrence(names, t) && has_device(devices, names[t]) {
            prefix.push(device_index(devices, names[t]))
        } else {
            prefix
        }
    }
}

impl CameraManager {
    /// Well-formedness: names are unique and each device has a lease flag.
    pub open spec fn wf(self) -> bool {
        &&& unique_names(self.devices@)
        &&& self.leased@.len() == self.devices@.len()
    }

    /// Builds the registry from the configuration document, taking
    /// ownership of the device list.  Fails fast on duplicate names; every
    /// configured device gets exactly one entry, in configuration order,
    /// with its lease free.
    pub fn new(config: MasterConfig) -> (r: Result<CameraManager, AppError>)
        ensures
            r is Ok <==> unique_names(config.cameras@),
            r matches Ok(m) ==> {
                &&& m.wf()
                &&& m.devices@ == config.cameras@
                &&& forall|i: int| 0 <= i < m.leased@.len() ==> !(#[trigger] m.leased@[i])
            },
            r matches Err(e) ==> e is Config,
    {
        let n = config.cameras.len();
        let mut i: usize = 0;
        while i < n
            invariant
                n == config.cameras@.len(),
                0 <= i <= n,
                forall|a: int, b: int|
                    0 <= a < b < i ==> name_of(#[trigger] config.cameras@[a]) != name_of(
                        #[trigger] config.cameras@[b],
                    ),
            decreases n - i,
        {
            let mut j: usize = 0;
            while j < i
                invariant
                    n == config.cameras@.len(),
                    0 <= j <= i < n,
                    forall|a: int|
                        0 <= a < j ==> name_of(#[trigger] config.cameras@[a]) != name_of(
                            config.cameras@[i as int],
                        ),
                decreases i - j,
            {
                if str_eq(
                    config.cameras[j].get_name().as_str(),
                    config.cameras[i].get_name().as_str(),
                ) {
                    return Err(
                        AppError::Config("duplicate camera/device name found in configuration".to_owned()),
                    );
                }
                j = j + 1;
            }
            i = i + 1;
        }
        let mut leased: Vec<bool> = Vec::new();
        let mut k: usize = 0;
        while k < n
            invariant
                0 <= k <= n,
                leased@.len() == k,
                forall|a: int| 0 <= a < k ==> !(#[trigger] leased@[a]),
            decreases n - k,
        {
            leased.push(false);
            k = k + 1;
        }
        Ok(CameraManager { devices: config.cameras, leased })
    }

    /// A borrowed view of the entry behind a handle.
    pub fn device(&self, i: usize) -> (r: &CaptureDeviceConfig)
        requires
            i < self.devices@.len(),
        ensures
            *r == self.devices@[i as int],
    {
        &self.devices[i]
    }

    /// The number of registered devices.
    pub fn len(&self) -> (r: usize)
        ensures
            r == self.devices@.len(),
    {
        self.devices.len()
    }

    /// Handles of all devices, in registry (configuration) order.
    pub fn get_all_devices(&self) -> (r: Vec<usize>)
        ensures
            r@.len() == self.devices@.len(),
            forall|a: int| 0 <= a < r@.len() ==> #[trigger] r@[a] == a,
    {
        let n = self.devices.len();
        let mut out: Vec<usize> = Vec::new();
        let mut i: usize = 0;
        while i < n
            invariant
                0 <= i <= n,
                out@.len() == i,
                forall|a: int| 0 <= a < i ==> #[trigger] out@[a] == a,
            decreases n - i,
        {
            out.push(i);
            i = i + 1;
        }
        out
    }

    /// The handle registered under `name`, if any.
    pub fn find_index(&self, name: &str) -> (r: Option<usize>)
        ensures
            match r {
                Some(i) => i < self.devices@.len() && name_of(self.devices@[i as int]) == name@,
                None => !has_device(self.devices@, name@),
            },
    {
        let n = self.devices.len();
        let mut i: usize = 0;
        while i < n
            invariant
                n == self.devices@.len(),
                0 <= i <= n,
                forall|a: int| 0 <= a < i ==> name_of(#[trigger] self.devices@[a]) != name@,
            decreases n - i,
        {
            if str_eq(self.devices[i].get_name().as_str(), name) {
                return Some(i);
            }
            i = i + 1;
        }
        None
    }

    /// Resolves a list of requested names to handles: requested order,
    /// de-duplicated, unknown names skipped.
    pub fn get_devices_by_names(&self, names: &Vec<String>) -> (r: Vec<usize>)
        requires
            self.wf(),
        ensures
            r@.map_values(|u: usize| u as int) == resolve_spec(
                self.devices@,
                names@.map_values(|s: String| s@),
            ),
            forall|a: int| 0 <= a < r@.len() ==> #[trigger] r@[a] < self.devices@.len(),
    {
        let ghost nm = names@.map_values(|s: String| s@);
        let n = names.len();
        let mut out: Vec<usize> = Vec::new();
        let mut t: usize = 0;
        while t < n
            invariant
                self.wf(),
                n == names@.len(),
                nm == names@.map_values(|s: String| s@),
                0 <= t <= n,
                out@.map_values(|u: usize| u as int) == resolve_spec(
                    self.devices@,
                    nm.subrange(0, t as int),
                ),
                forall|a: int| 0 <= a < out@.len() ==> #[trigger] out@[a] < self.devices@.len(),
            decreases n - t,
        {
            let ghost pre = out@.map_values(|u: usize| u as int);
            let mut dup = false;
            let mut k: usize = 0;
            while k < t
                invariant
                    n == names@.len(),
                    nm == names@.map_values(|s: String| s@),
                    0 <= k <= t < n,
                    dup <==> exists|a: int| 0 <= a < k && #[trigger] nm[a] == nm[t as int],
                decreases t - k,
            {
                let eq = str_eq(names[k].as_str(), names[t].as_str());
                proof {
                    assert(nm[k as int] == names@[k as int]@);
                    assert(nm[t as int] == names@[t as int]@);
                }
                let ghost was_dup = dup;
                if eq {
                    dup = true;
                }
                proof {
                    if dup {
                        if was_dup {
                            let a = choose|a: int| 0 <= a < k && #[trigger] nm[a] == nm[t as int];
                            assert(0 <= a < k + 1 && nm[a] == nm[t as int]);
                        } else {
                            assert(0 <= k < k + 1 && nm[k as int] == nm[t as int]);
                        }
                    } else {
                        assert forall|a: int| 0 <= a < k + 1 implies #[trigger] nm[a]
                            != nm[t as int] by {
                            if a == k {
                                assert(nm[k as int] != nm[t as int]);
                            }
                        }
                    }
                }
                k = k + 1;
            }
            if !dup {
                match self.find_index(names[t].as_str()) {
                    Some(i) => {
                        out.push(i);
                        proof {
                            let devs = self.devices@;
                            let name = nm[t as int];
                            assert(name_of(devs[i as int]) == name);
                            let ci = device_index(devs, name);
                            assert(0 <= ci < devs.len() && name_of(devs[ci]) == name);
                            assert(ci == i) by {
                                if ci != i as int {
                                    if ci < i as int {
                                        assert(name_of(devs[ci]) != name_of(devs[i as int]));
                                    } else {
                                        assert(name_of(devs[i as int]) != name_of(devs[ci]));
                                    }
                                }
                            }
                        }
                    },
                    None => {},
                }
            }
            proof {
                let sub1 = nm.subrange(0, t + 1);
                assert(sub1.drop_last() =~= nm.subrange(0, t as int));
                assert(sub1[t as int] == nm[t as int]);
                assert(first_occurrence(sub1, t as int) <==> !dup) by {
                    if dup {
                        let a = choose|a: int| 0 <= a < t && #[trigger] nm[a] == nm[t as int];
                        assert(sub1[a] == nm[t as int]);
                    } else {
                        assert forall|k2: int| 0 <= k2 < t implies #[trigger] sub1[k2]
                            != sub1[t as int] by {
                            assert(sub1[k2] == nm[k2]);
                        }
                    }
                }
                assert(out@.map_values(|u: usize| u as int) =~= resolve_spec(self.devices@, sub1));
            }
            t = t + 1;
        }
        proof {
            assert(nm.subrange(0, n as int) =~= nm);
        }
        out
    }

    /// Takes the exclusive lease on device `i`.  Succeeds exactly when the
    /// lease is free; the device table itself is never changed.
    pub fn acquire_lease(&mut self, i: usize) -> (r: bool)
        requires
            i < old(self).leased@.len(),
        ensures
            r == !old(self).leased@[i as int],
            final(self).devices@ == old(self).devices@,
            final(self).leased@ == old(self).leased@.update(i as int, true),
    {
        let was = self.leased[i];
        self.leased.set(i, true);
        !was
    }

    /// Returns the lease on device `i`.
    pub fn release_lease(&mut self, i: usize)
        requires
            i < old(self).leased@.len(),
        ensures
            final(self).devices@ == old(self).devices@,
            final(self).leased@ == old(self).leased@.update(i as int, false),
    {
        self.leased.set(i, false);
    }
}

/// Parses the `--cameras` argument: a comma-separated list of names, each
/// trimmed, empty entries dropped.  `None` stays `None`.
pub fn parse_camera_names_arg(names_str_opt: Option<&String>) -> (r: Option<Vec<String>>)
    ensures
        match names_str_opt {
            Some(s) => r matches Some(v) && v@.map_values(|t: String| t@) == text::csv_tokens(s@),
            None => r is None,
        },
{
    match names_str_opt {
        Some(s) => Some(text::split_csv(s.as_str())),
        None => None,
    }
}

/// Every handle, in registry order.
pub open spec fn all_handles(devices: Seq<CaptureDeviceConfig>) -> Seq<int> {
    Seq::new(devices.len(), |i: int| i)
}

/// The handles a camera selector argument resolves to: all devices when
/// the argument is absent or names `all` (case-insensitively), otherwise
/// the comma-separated names, de-duplicated, unknown names skipped.
pub open spec fn target_spec(devices: Seq<CaptureDeviceConfig>, specific: Option<Seq<char>>) -> Seq<
    int,
> {
    match specific {
        None => all_handles(devices),
        Some(s) => if text::lower_seq(s) == "all"@ {
            all_handles(devices)
        } else {
            resolve_spec(devices, text::csv_tokens(s))
        },
    }
}

/// Resolves the `--cameras` argument to the target device handles.
pub fn determine_target_devices(manager: &CameraManager, specific: Option<&String>) -> (r: Vec<
    usize,
>)
    requires
        manager.wf(),
    ensures
        r@.map_values(|u: usize| u as int) == target_spec(
            manager.devices@,
            match specific {
                Some(s) => Some(s@),
                None => None,
            },
        ),
        forall|a: int| 0 <= a < r@.len() ==> #[trigger] r@[a] < manager.devices@.len(),
{
    match specific {
        Some(s) => {
            let lowered = text::to_lowercase(s.as_str());
            if str_eq(lowered.as_str(), "all") {
                let all = manager.get_all_devices();
                proof {
                    assert(all@.map_values(|u: usize| u as int) =~= all_handles(manager.devices@));
                }
                all
            } else {
                let names = text::split_csv(s.as_str());
                manager.get_devices_by_names(&names)
            }
        },
        None => {
            let all = manager.get_all_devices();
            proof {
                assert(all@.map_values(|u: usize| u as int) =~= all_handles(manager.devices@));
            }
            all
        },
    }
}

/// Building the registry is deterministic: two builds from the same device
/// list hold the same entries in the same order, so the build is idempotent
/// given identical configuration.
pub proof fn lemma_registry_build_idempotent(
    cams: Seq<CaptureDeviceConfig>,
    m1: CameraManager,
    m2: CameraManager,
)
    requires
        m1.devices@ == cams,
        m2.devices@ == cams,
    ensures
        m1.devices@ == m2.devices@,
{
}

/// With unique names the registry is a bijection between configuration
/// entries and handles: every entry is found under its own name, and
/// distinct entries answer to distinct names.
pub proof fn lemma_registry_bijection(m: CameraManager)
    requires
        m.wf(),
    ensures
        forall|i: int|
            0 <= i < m.devices@.len() ==> device_index(
                m.devices@,
                name_of(#[trigger] m.devices@[i]),
            ) == i,
{
    assert forall|i: int|
        0 <= i < m.devices@.len() implies device_index(
        m.devices@,
        name_of(#[trigger] m.devices@[i]),
    ) == i by {
        let name = name_of(m.devices@[i]);
        assert(has_device(m.devices@, name));
        let ci = device_index(m.devices@, name);
        assert(0 <= ci < m.devices@.len() && name_of(m.devices@[ci]) == name);
        if ci != i {
            if ci < i {
                assert(name_of(m.devices@[ci]) != name_of(m.devices@[i]));
            } else {
                assert(name_of(m.devices@[i]) != name_of(m.devices@[ci]));
            }
        }
    }
}

/// Operations on one device are serialized by the lease: after a
/// successful acquisition the lease is held, so a second acquisition of
/// the same device cannot succeed until the first is released.
pub proof fn lemma_lease_excludes_second_acquire(before: Seq<bool>, after: Seq<bool>, i: int)
    requires
        0 <= i < before.len(),
        !before[i],
        after == before.update(i, true),
    ensures
        after[i],
{
}

} // verus!
