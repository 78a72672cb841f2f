//! The package registry and the package manager's answers: which app a
//! package name or uid names, and the `ApplicationInfo` and `ActivityInfo`
//! fields the manager reports for it.
use vstd::prelude::*;
use crate::services::{Answer, Payload};
use crate::text::{chars_of, concat, is, same};

verus! {

/// What the session knows of an installed app.
pub struct AppRecord {
    pub package: String,
    /// The APK path as the app sees it.
    pub apk_in_ns: String,
    pub app_class: Option<String>,
    pub target_sdk: i32,
    pub min_sdk: i32,
    pub uid: i32,
    pub version_code: i32,
    pub version_name: String,
    pub app_theme: u32,
    pub label_res: u32,
    pub icon_res: u32,
    pub app_component_factory: Option<String>,
}

/// The apps of the session.
pub struct Registry {
    pub apps: Vec<AppRecord>,
}

/// `i` is the first app with package name `p`.
pub open spec fn first_package(apps: Seq<AppRecord>, p: Seq<char>, i: int) -> bool {
    0 <= i < apps.len() && apps[i].package@ == p && forall|j: int| 0 <= j < i ==> (#[trigger] apps[j]).package@ != p
}

/// `i` is the first app with uid `uid`.
pub open spec fn first_uid(apps: Seq<AppRecord>, uid: i32, i: int) -> bool {
    0 <= i < apps.len() && apps[i].uid == uid && forall|j: int| 0 <= j < i ==> (#[trigger] apps[j]).uid != uid
}

pub open spec fn find_spec(apps: Seq<AppRecord>, p: Seq<char>) -> Option<int> {
    if exists|i: int| first_package(apps, p, i) { Some(choose|i: int| first_package(apps, p, i)) } else { None }
}

pub open spec fn find_uid_spec(apps: Seq<AppRecord>, uid: i32) -> Option<int> {
    if exists|i: int| first_uid(apps, uid, i) { Some(choose|i: int| first_uid(apps, uid, i)) } else { None }
}

impl Registry {
    /// The app with package name `package`.
    pub fn find(&self, package: &str) -> (r: Option<usize>)
        ensures
            match r {
                Some(i) => find_spec(self.apps@, package@) == Some(i as int),
                None => find_spec(self.apps@, package@) is None,
            },
    {
        let p = chars_of(package);
        let mut i: usize = 0;
        while i < self.apps.len()
            invariant
                i <= self.apps@.len(),
                p@ == package@,
                forall|j: int| 0 <= j < i ==> (#[trigger] self.apps@[j]).package@ != package@,
            decreases self.apps.len() - i,
        {
            let n = chars_of(self.apps[i].package.as_str());
            if same(n.as_slice(), p.as_slice()) {
                proof {
                    let a = self.apps@;
                    assert(first_package(a, package@, i as int));
                    let k = choose|k: int| first_package(a, package@, k);
                    assert(k == i as int) by {
                        if k < i {
                        } else if k > i {
                            assert(a[i as int].package@ == package@);
                        }
                    }
                }
                return Some(i);
            }
            i = i + 1;
        }
        None
    }

    /// The app with uid `uid`.
    pub fn find_uid(&self, uid: i32) -> (r: Option<usize>)
        ensures
            match r {
                Some(i) => find_uid_spec(self.apps@, uid) == Some(i as int),
                None => find_uid_spec(self.apps@, uid) is None,
            },
    {
        let mut i: usize = 0;
        while i < self.apps.len()
            invariant
                i <= self.apps@.len(),
                forall|j: int| 0 <= j < i ==> (#[trigger] self.apps@[j]).uid != uid,
            decreases self.apps.len() - i,
        {
            if self.apps[i].uid == uid {
                proof {
                    let a = self.apps@;
                    assert(first_uid(a, uid, i as int));
                    let k = choose|k: int| first_uid(a, uid, k);
                    assert(k == i as int) by {
                        if k < i {
                        } else if k > i {
                            assert(a[i as int].uid == uid);
                        }
                    }
                }
                return Some(i);
            }
            i = i + 1;
        }
        None
    }

    /// `getPackageUid`: the uid of `package`, or -1.
    pub fn package_uid(&self, package: Option<&str>) -> (r: i32)
        ensures
            r == match package {
                Some(p) => match find_spec(self.apps@, p@) {
                    Some(i) => self.apps@[i].uid,
                    None => -1i32,
                },
                None => -1i32,
            },
    {
        match package {
            Some(p) => match self.find(p) {
                Some(i) => self.apps[i].uid,
                None => -1,
            },
            None => -1,
        }
    }

    /// `getNameForUid` and `getPackagesForUid`: the package of the app
    /// with `uid`.
    pub fn name_for_uid(&self, uid: i32) -> (r: Option<String>)
        ensures
            match r {
                Some(n) => exists|i: int| find_uid_spec(self.apps@, uid) == Some(i) && n@ == self.apps@[i].package@,
                None => find_uid_spec(self.apps@, uid) is None,
            },
    {
        match self.find_uid(uid) {
            Some(i) => Some(self.apps[i].package.clone()),
            None => None,
        }
    }

    /// `isPackageAvailable`.
    pub fn is_available(&self, package: Option<&str>) -> (r: bool)
        ensures
            r == match package {
                Some(p) => find_spec(self.apps@, p@) is Some,
                None => false,
            },
    {
        match package {
            Some(p) => self.find(p).is_some(),
            None => false,
        }
    }

    /// The target SDK of the session's first app, or 37.
    pub fn first_target_sdk(&self) -> (r: i32)
        ensures
            r == if self.apps@.len() > 0 { self.apps@[0].target_sdk } else { 37i32 },
    {
        if self.apps.len() > 0 {
            self.apps[0].target_sdk
        } else {
            37
        }
    }
}

// ---------------------------------------------------------------------------
// ApplicationInfo and ActivityInfo fields
// ---------------------------------------------------------------------------

/// The fields of `ApplicationInfo` the manager fills from an app's record.
pub struct AppInfoFields {
    pub package_name: String,
    pub name: Option<String>,
    pub class_name: Option<String>,
    pub process_name: String,
    pub task_affinity: String,
    pub source_dir: String,
    pub public_source_dir: String,
    pub native_library_dir: String,
    pub data_dir: String,
    pub credential_protected_data_dir: String,
    pub device_protected_data_dir: String,
    pub target_sdk_version: i32,
    pub min_sdk_version: i32,
    pub theme: i32,
    pub label_res: i32,
    pub icon: i32,
    pub app_component_factory: Option<String>,
    pub uid: i32,
    pub long_version_code: i64,
}

pub open spec fn opt_text(o: Option<String>) -> Option<Seq<char>> {
    match o {
        Some(s) => Some(s@),
        None => None,
    }
}

/// The application info of `a`: its package is its process and task
/// affinity, its APK both source dirs, and its data lives under
/// `/data/user/0` and `/data/user_de/0`.
pub open spec fn app_info_spec(a: AppRecord, f: AppInfoFields) -> bool {
    &&& f.package_name@ == a.package@
    &&& opt_text(f.name) == opt_text(a.app_class)
    &&& opt_text(f.class_name) == opt_text(a.app_class)
    &&& f.process_name@ == a.package@
    &&& f.task_affinity@ == a.package@
    &&& f.source_dir@ == a.apk_in_ns@
    &&& f.public_source_dir@ == a.apk_in_ns@
    &&& f.native_library_dir@ == "/data/app/"@ + a.package@ + "/lib/x86_64"@
    &&& f.data_dir@ == "/data/user/0/"@ + a.package@
    &&& f.credential_protected_data_dir@ == f.data_dir@
    &&& f.device_protected_data_dir@ == "/data/user_de/0/"@ + a.package@
    &&& f.target_sdk_version == a.target_sdk
    &&& f.min_sdk_version == a.min_sdk
    &&& f.theme == a.app_theme as i32
    &&& f.label_res == a.label_res as i32
    &&& f.icon == a.icon_res as i32
    &&& opt_text(f.app_component_factory) == opt_text(a.app_component_factory)
    &&& f.uid == a.uid
    &&& f.long_version_code == a.version_code as i64
}

fn copy_opt(o: &Option<String>) -> (r: Option<String>)
    ensures
        opt_text(r) == opt_text(*o),
{
    match o {
        Some(s) => Some(s.clone()),
        None => None,
    }
}

/// The `ApplicationInfo` fields of app `a`.
pub fn application_info(a: &AppRecord) -> (f: AppInfoFields)
    ensures
        app_info_spec(*a, f),
{
    let lib = concat("/data/app/", a.package.as_str());
    let lib = concat(lib.as_str(), "/lib/x86_64");
    let data = concat("/data/user/0/", a.package.as_str());
    let de = concat("/data/user_de/0/", a.package.as_str());
    AppInfoFields {
        package_name: a.package.clone(),
        name: copy_opt(&a.app_class),
        class_name: copy_opt(&a.app_class),
        process_name: a.package.clone(),
        task_affinity: a.package.clone(),
        source_dir: a.apk_in_ns.clone(),
        public_source_dir: a.apk_in_ns.clone(),
        native_library_dir: lib,
        data_dir: data.clone(),
        credential_protected_data_dir: data,
        device_protected_data_dir: de,
        target_sdk_version: a.target_sdk,
        min_sdk_version: a.min_sdk,
        theme: a.app_theme as i32,
        label_res: a.label_res as i32,
        icon: a.icon_res as i32,
        app_component_factory: copy_opt(&a.app_component_factory),
        uid: a.uid,
        long_version_code: a.version_code as i64,
    }
}

/// An activity's theme: its own, or the app's when it declares none.
pub fn activity_theme(declared: u32, app_theme: u32) -> (t: i32)
    ensures
        t == if declared != 0 { declared as i32 } else { app_theme as i32 },
{
    if declared != 0 {
        declared as i32
    } else {
        app_theme as i32
    }
}

/// An activity's task affinity: its own, or the package.
pub fn task_affinity(declared: &Option<String>, package: &str) -> (r: String)
    ensures
        r@ == match declared {
            Some(d) => d@,
            None => package@,
        },
{
    match declared {
        Some(d) => d.clone(),
        None => package.to_owned(),
    }
}

// ---------------------------------------------------------------------------
// The service
// ---------------------------------------------------------------------------

/// The `android.content.pm.IPackageManager` binder service.
pub struct PackageService {
    pub registry: Registry,
}

pub open spec fn package_answer(name: Seq<char>) -> Answer {
    if name == "getApplicationInfo"@ {
        Answer::Payload(Payload::ApplicationInfoOf)
    } else if name == "getPackageInfo"@ {
        Answer::Payload(Payload::PackageInfoOf)
    } else if name == "getPackagesForUid"@ {
        Answer::Payload(Payload::PackagesForUid)
    } else if name == "getNameForUid"@ {
        Answer::Payload(Payload::NameForUid)
    } else if name == "getPackageUid"@ {
        Answer::Payload(Payload::PackageUid)
    } else if name == "isPackageAvailable"@ {
        Answer::Payload(Payload::PackageAvailable)
    } else if name == "hasSystemFeature"@ {
        Answer::Bool(false)
    } else if name == "checkPermission"@ {
        Answer::Int(0)
    } else if name == "getInstallerPackageName"@ {
        Answer::NullText
    } else if name == "getComponentEnabledSetting"@ {
        Answer::Int(0)
    } else if name == "getActivityInfo"@ {
        Answer::Payload(Payload::ActivityInfoOf)
    } else if name == "getServiceInfo"@ || name == "getReceiverInfo"@ || name == "getProviderInfo"@
        || name == "queryProperty"@ || name == "queryProperties"@ || name == "getPropertyAsUser"@ {
        Answer::TypedNone
    } else if name == "getSdkSandboxPackageName"@ {
        Answer::NullText
    } else if name == "notifyDexLoad"@ {
        Answer::Silent
    } else {
        Answer::Refused
    }
}

impl PackageService {
    /// How `IPackageManager` answers `name`: the session's apps are known,
    /// every permission is granted, no system feature is present.
    pub fn answer(&self, name: &str) -> (a: Answer)
        ensures
            a == package_answer(name@),
    {
        let n = chars_of(name);
        let n = n.as_slice();
        if is(n, "getApplicationInfo") {
            Answer::Payload(Payload::ApplicationInfoOf)
        } else if is(n, "getPackageInfo") {
            Answer::Payload(Payload::PackageInfoOf)
        } else if is(n, "getPackagesForUid") {
            Answer::Payload(Payload::PackagesForUid)
        } else if is(n, "getNameForUid") {
            Answer::Payload(Payload::NameForUid)
        } else if is(n, "getPackageUid") {
            Answer::Payload(Payload::PackageUid)
        } else if is(n, "isPackageAvailable") {
            Answer::Payload(Payload::PackageAvailable)
        } else if is(n, "hasSystemFeature") {
            Answer::Bool(false)
        } else if is(n, "checkPermission") {
            Answer::Int(0)
        } else if is(n, "getInstallerPackageName") {
            Answer::NullText
        } else if is(n, "getComponentEnabledSetting") {
            Answer::Int(0)
        } else if is(n, "getActivityInfo") {
            Answer::Payload(Payload::ActivityInfoOf)
        } else if is(n, "getServiceInfo") || is(n, "getReceiverInfo") || is(n, "getProviderInfo")
            || is(n, "queryProperty") || is(n, "queryProperties") || is(n, "getPropertyAsUser") {
            Answer::TypedNone
        } else if is(n, "getSdkSandboxPackageName") {
            Answer::NullText
        } else if is(n, "notifyDexLoad") {
            Answer::Silent
        } else {
            Answer::Refused
        }
    }
}

} // verus!
