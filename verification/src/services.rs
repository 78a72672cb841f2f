//! How the host's binder services answer their transactions: for each
//! service, the reply a transaction name gets. A reply is either a plain
//! value after the no-exception header, or a payload the host writes (a
//! parcelable, or a call that goes on to the service's state).
use vstd::prelude::*;
use crate::text::{begins, chars_of, is, starts_with};

verus! {

/// The structured replies and the calls that go on to a service's state.
#[derive(PartialEq, Eq, Debug, Clone, Copy, Structural)]
pub enum Payload {
    /// A `SyncNotedAppOp`: mode allowed, no attribution.
    SyncNotedOp,
    /// The user id the call passed, echoed.
    EchoUser,
    /// The `UserInfo` of the user the call names when it is user 0, else
    /// null.
    UserInfoOf,
    /// The id list `[0]`.
    ProfileIds,
    /// A list of the one user.
    Users,
    /// The one storage volume, mounted.
    VolumeList,
    /// The id list `[-1]`: the virtual keyboard.
    KeyboardIds,
    /// The virtual keyboard when the call names device -1, else null.
    KeyboardOf,
    /// A new player binder.
    CreatePlayer,
    /// A new metadata-retriever binder.
    CreateRetriever,
    /// A null binder.
    NullBinder,
    /// A notification posted to the shade.
    Post,
    /// A notification cancelled.
    Cancel,
    /// All of a package's notifications cancelled.
    CancelAll,
    /// An alarm set.
    AlarmSet,
    /// An alarm removed.
    AlarmRemove,
    /// All alarms removed.
    AlarmRemoveAll,
    /// An activity reported destroyed: it leaves the top of the task.
    ActivityDestroyed,
    /// An activity asked to finish.
    FinishActivity,
    /// An activity asked to finish with its affinity.
    FinishActivityAffinity,
    /// The `ApplicationInfo` of the package the call names, or null.
    ApplicationInfoOf,
    /// The `PackageInfo` of the package the call names, or null.
    PackageInfoOf,
    /// The packages of the uid the call names, or a null array.
    PackagesForUid,
    /// The package of the uid the call names, or a null string.
    NameForUid,
    /// The uid of the package the call names, or -1.
    PackageUid,
    /// Whether the package the call names is installed.
    PackageAvailable,
    /// The `ActivityInfo` of the component the call names, or null.
    ActivityInfoOf,
    /// The one location provider, `network`.
    ProviderList,
    /// Whether location is enabled on the desktop.
    LocationEnabled,
    /// Whether the provider the call names is there (and enabled).
    ProviderCheck,
    /// A location request.
    CurrentLocation,
    /// Whether the compat change the call names is enabled.
    ChangeEnabled,
    /// The network.
    Network,
    /// The network's capabilities.
    Capabilities,
    /// The legacy `NetworkInfo`.
    NetworkInfo,
    /// The array of the one network.
    AllNetworks,
    /// The composer client binder.
    ClientConnection,
    /// A new display-event connection binder.
    EventConnection,
    /// The id list of the one physical display.
    PhysicalDisplayIds,
    /// The display token when the call names the physical display, else
    /// null.
    DisplayToken,
    /// A layer created for the client; its `CreateSurfaceResult`.
    SurfaceCreated,
    /// A `SchedulingPolicy` of policy 0, priority 0.
    SchedulingPolicy,
    /// The two ends of the vsync channel.
    ReceiveChannel,
    /// The vsync rate set.
    VsyncRate,
    /// The latest `VsyncEventData`.
    VsyncEventData,
    /// The `DisplayInfo` of the display the call names, or null.
    DisplayInfoOf,
    /// The id list of the one logical display.
    DisplayIds,
    /// The display's `OverlayProperties`.
    OverlaySupport,
    /// A display listener registered.
    DisplayCallback,
    /// A clip handed to the host clipboard.
    ClipSet,
    /// The host clipboard cleared.
    ClipCleared,
    /// The host clipboard's text as a `ClipData`, or null.
    HostClip,
    /// The host clipboard's `ClipDescription`, or null.
    HostClipDescription,
    /// Whether the host clipboard holds text.
    HasClip,
    /// A clipboard listener added or removed.
    ClipListener,
    /// An app process attached: the app is bound.
    AttachApplication,
    /// The app is up: its first activity is launched.
    LaunchMain,
    /// A new `PendingIntent` sender.
    IntentSender,
    /// The `ContentProviderHolder` of the provider the call names, or null.
    ContentProviderOf,
    /// A service started; its `ComponentName`.
    ServiceStarted,
    /// A service stopped; `true`.
    ServiceStopped,
    /// The activity client controller binder.
    ClientController,
    /// Whether the buffer the call describes can be allocated.
    BufferSupported,
    /// The buffers `allocate2` asks for, or the unsupported error.
    Allocation,
}

/// A service's reply to one transaction.
#[derive(PartialEq, Eq, Debug, Clone, Copy)]
pub enum Answer {
    /// Not implemented: the transaction is refused.
    Refused,
    /// Handled, nothing written (a one-way call).
    Silent,
    /// The no-exception header alone.
    Done,
    Bool(bool),
    Int(i32),
    Long(i64),
    /// A float, by its IEEE bits.
    FloatBits(u32),
    /// A UTF-16 string.
    Text(&'static str),
    /// A null string.
    NullText,
    /// A null array.
    NullArray,
    /// An empty list.
    EmptyList,
    /// A null typed object.
    TypedNone,
    /// An empty `ParceledListSlice`.
    EmptySlice,
    /// A bare 32-bit value, without the exception header.
    Raw(i32),
    Payload(Payload),
}

/// The name of transaction `code` in `table`, or `?`.
pub open spec fn name_of_spec(table: Seq<(u32, &'static str)>, code: u32) -> Seq<char> {
    if exists|i: int| 0 <= i < table.len() && table[i].0 == code && forall|j: int| 0 <= j < i ==> (#[trigger] table[j]).0 != code {
        table[choose|i: int| 0 <= i < table.len() && table[i].0 == code && forall|j: int| 0 <= j < i ==> (#[trigger] table[j]).0 != code].1@
    } else {
        "?"@
    }
}

/// The name a transaction code has in a service's table: the first entry
/// with that code, or `?`.
pub fn name_of(table: &[(u32, &'static str)], code: u32) -> (r: &'static str)
    ensures
        r@ == name_of_spec(table@, code),
{
    let mut i: usize = 0;
    while i < table.len()
        invariant
            i <= table@.len(),
            forall|j: int| 0 <= j < i ==> (#[trigger] table@[j]).0 != code,
        decreases table.len() - i,
    {
        if table[i].0 == code {
            proof {
                let t = table@;
                let k = choose|k: int| 0 <= k < t.len() && t[k].0 == code && forall|j: int| 0 <= j < k ==> (#[trigger] t[j]).0 != code;
                assert(k == i as int) by {
                    if k < i {
                    } else if k > i {
                        assert(t[i as int].0 == code);
                    }
                }
            }
            return table[i].1;
        }
        i = i + 1;
    }
    "?"
}

// ---------------------------------------------------------------------------
// Connectivity
// ---------------------------------------------------------------------------

/// `NetworkCapabilities.TRANSPORT_CELLULAR` and `TRANSPORT_WIFI`.
pub const TRANSPORT_CELLULAR: i32 = 0;
pub const TRANSPORT_WIFI: i32 = 1;

/// The host's one network, as the desktop reports it.
#[derive(Clone, Copy)]
pub struct HostNet {
    pub online: bool,
    pub metered: bool,
    pub validated: bool,
    /// A `NetworkCapabilities.TRANSPORT_*` number.
    pub transport: i32,
}

/// The `android.net.IConnectivityManager` binder service.
pub struct NetworkService {
    pub net: HostNet,
}

/// The capability bits every host network has: internet, not restricted,
/// trusted, not a VPN, not roaming, not congested, not suspended, not
/// VCN-managed.
pub open spec fn base_caps() -> i64 {
    (1i64 << 12u64) | (1i64 << 13u64) | (1i64 << 14u64) | (1i64 << 15u64) | (1i64 << 18u64) | (1i64 << 20u64) | (1i64 << 21u64) | (1i64 << 28u64)
}

pub open spec fn caps_spec(net: HostNet) -> i64 {
    base_caps() | (if net.validated { 1i64 << 16u64 } else { 0i64 }) | (if !net.metered { 1i64 << 11u64 } else { 0i64 })
}

/// `NetworkCapabilities.mTransportTypes`: the transport's bit.
pub open spec fn transport_mask_spec(transport: i32) -> i64 {
    1i64 << (transport as u64)
}

/// The legacy network type and name of a transport.
pub open spec fn network_type_spec(transport: i32) -> (i32, Seq<char>) {
    if transport == TRANSPORT_WIFI {
        (1, "WIFI"@)
    } else if transport == TRANSPORT_CELLULAR {
        (0, "MOBILE"@)
    } else {
        (9, "ETHERNET"@)
    }
}

pub open spec fn network_answer(net: HostNet, name: Seq<char>) -> Answer {
    if name == "getActiveNetwork"@ || name == "getActiveNetworkForUid"@ {
        if net.online { Answer::Payload(Payload::Network) } else { Answer::TypedNone }
    } else if name == "getNetworkCapabilities"@ {
        if net.online { Answer::Payload(Payload::Capabilities) } else { Answer::TypedNone }
    } else if name == "getActiveNetworkInfo"@ || name == "getActiveNetworkInfoForUid"@ || name == "getNetworkInfo"@ || name == "getNetworkInfoForUid"@ {
        if net.online { Answer::Payload(Payload::NetworkInfo) } else { Answer::TypedNone }
    } else if name == "getAllNetworks"@ {
        if net.online { Answer::Payload(Payload::AllNetworks) } else { Answer::Int(0) }
    } else if name == "getLinkProperties"@ || name == "getActiveLinkProperties"@ {
        Answer::TypedNone
    } else if name == "isActiveNetworkMetered"@ {
        Answer::Bool(net.metered)
    } else if name == "isDefaultNetworkActive"@ {
        Answer::Bool(net.online)
    } else if starts_with(name, "is"@) || starts_with(name, "are"@) || (starts_with(name, "request"@) && name != "requestNetwork"@) {
        Answer::Bool(false)
    } else if starts_with(name, "get"@) {
        Answer::TypedNone
    } else {
        Answer::Done
    }
}

impl NetworkService {
    /// The capabilities of the host network as a bit set.
    pub fn caps_mask(&self) -> (m: i64)
        ensures
            m == caps_spec(self.net),
    {
        let mut m: i64 = 0;
        m = m | (1i64 << 12u64);
        m = m | (1i64 << 13u64);
        m = m | (1i64 << 14u64);
        m = m | (1i64 << 15u64);
        m = m | (1i64 << 18u64);
        m = m | (1i64 << 20u64);
        m = m | (1i64 << 21u64);
        m = m | (1i64 << 28u64);
        assert(m == base_caps()) by (bit_vector)
            requires
                m == 0i64 | (1i64 << 12u64) | (1i64 << 13u64) | (1i64 << 14u64) | (1i64 << 15u64) | (1i64 << 18u64) | (1i64 << 20u64) | (1i64 << 21u64) | (1i64 << 28u64);
        let v: i64 = if self.net.validated { 1i64 << 16u64 } else { 0 };
        let u: i64 = if !self.net.metered { 1i64 << 11u64 } else { 0 };
        m | v | u
    }

    /// The transport's bit.
    pub fn transport_mask(&self) -> (m: i64)
        requires
            0 <= self.net.transport < 63,
        ensures
            m == transport_mask_spec(self.net.transport),
    {
        1i64 << (self.net.transport as u64)
    }

    /// The legacy type number and name of the host network, and its state.
    pub fn network_info(&self) -> (r: (i32, &'static str, &'static str))
        ensures
            (r.0, r.1@) == network_type_spec(self.net.transport),
            r.2@ == if self.net.online { "CONNECTED"@ } else { "DISCONNECTED"@ },
    {
        let (ty, name) = if self.net.transport == TRANSPORT_WIFI {
            (1, "WIFI")
        } else if self.net.transport == TRANSPORT_CELLULAR {
            (0, "MOBILE")
        } else {
            (9, "ETHERNET")
        };
        (ty, name, if self.net.online { "CONNECTED" } else { "DISCONNECTED" })
    }

    /// How `IConnectivityManager` answers `name`: the host network, when
    /// online.
    pub fn answer(&self, name: &str) -> (a: Answer)
        ensures
            a == network_answer(self.net, name@),
    {
        let n = chars_of(name);
        let n = n.as_slice();
        let online = self.net.online;
        if is(n, "getActiveNetwork") || is(n, "getActiveNetworkForUid") {
            if online { Answer::Payload(Payload::Network) } else { Answer::TypedNone }
        } else if is(n, "getNetworkCapabilities") {
            if online { Answer::Payload(Payload::Capabilities) } else { Answer::TypedNone }
        } else if is(n, "getActiveNetworkInfo") || is(n, "getActiveNetworkInfoForUid") || is(n, "getNetworkInfo") || is(n, "getNetworkInfoForUid") {
            if online { Answer::Payload(Payload::NetworkInfo) } else { Answer::TypedNone }
        } else if is(n, "getAllNetworks") {
            if online { Answer::Payload(Payload::AllNetworks) } else { Answer::Int(0) }
        } else if is(n, "getLinkProperties") || is(n, "getActiveLinkProperties") {
            Answer::TypedNone
        } else if is(n, "isActiveNetworkMetered") {
            Answer::Bool(self.net.metered)
        } else if is(n, "isDefaultNetworkActive") {
            Answer::Bool(online)
        } else if begins(n, "is") || begins(n, "are") || (begins(n, "request") && is(n, "requestNetwork") == false) {
            Answer::Bool(false)
        } else if begins(n, "get") {
            Answer::TypedNone
        } else {
            Answer::Done
        }
    }
}

// ---------------------------------------------------------------------------
// Services answered by name alone
// ---------------------------------------------------------------------------

/// The `android.view.accessibility.IAccessibilityManager` binder service.
pub struct AccessibilityService;

pub open spec fn accessibility_answer(name: Seq<char>) -> Answer {
    if name == "addClient"@ {
        Answer::Long(0)
    } else if name == "removeClient"@ || name == "interrupt"@ || name == "sendAccessibilityEvent"@ {
        Answer::Done
    } else if name == "getRecommendedTimeoutMillis"@ {
        Answer::Long(0)
    } else if name == "getFocusStrokeWidth"@ {
        Answer::Int(4)
    } else if name == "getFocusColor"@ {
        Answer::Int(-16776961i32)
    } else if name == "isTouchExplorationEnabled"@ || name == "isAccessibilityServiceWarningRequired"@ {
        Answer::Bool(false)
    } else if name == "getEnabledAccessibilityServiceList"@ || name == "getInstalledAccessibilityServiceList"@ {
        Answer::NullArray
    } else {
        Answer::Refused
    }
}

impl AccessibilityService {
    /// How `IAccessibilityManager` answers `name`: no services enabled.
    pub fn answer(&self, name: &str) -> (a: Answer)
        ensures
            a == accessibility_answer(name@),
    {
        let n = chars_of(name);
        let n = n.as_slice();
        if is(n, "addClient") {
            Answer::Long(0)
        } else if is(n, "removeClient") || is(n, "interrupt") || is(n, "sendAccessibilityEvent") {
            Answer::Done
        } else if is(n, "getRecommendedTimeoutMillis") {
            Answer::Long(0)
        } else if is(n, "getFocusStrokeWidth") {
            Answer::Int(4)
        } else if is(n, "getFocusColor") {
            Answer::Int(-16776961i32)
        } else if is(n, "isTouchExplorationEnabled") || is(n, "isAccessibilityServiceWarningRequired") {
            Answer::Bool(false)
        } else if is(n, "getEnabledAccessibilityServiceList") || is(n, "getInstalledAccessibilityServiceList") {
            Answer::NullArray
        } else {
            Answer::Refused
        }
    }
}

/// The `com.android.internal.app.IAppOpsService` binder service.
pub struct AppOpsService;

pub open spec fn appops_answer(name: Seq<char>) -> Answer {
    if name == "checkOperation"@ || name == "checkAudioOperation"@ || name == "checkOperationForDevice"@ || name == "checkPackage"@ || name == "checkOperationRaw"@ {
        Answer::Int(0)
    } else if name == "permissionToOpCode"@ {
        Answer::Int(-1i32)
    } else if name == "noteOperation"@ || name == "noteProxyOperation"@ || name == "noteProxyOperationWithState"@ || name == "startOperation"@ || name == "startProxyOperation"@ {
        Answer::Payload(Payload::SyncNotedOp)
    } else if name == "finishOperation"@ || name == "finishProxyOperation"@ || name == "startWatchingMode"@ || name == "stopWatchingMode"@ {
        Answer::Done
    } else if name == "shouldCollectNotes"@ {
        Answer::Bool(false)
    } else if starts_with(name, "is"@) || starts_with(name, "should"@) {
        Answer::Bool(false)
    } else if starts_with(name, "get"@) || starts_with(name, "check"@) {
        Answer::Int(0)
    } else {
        Answer::Done
    }
}

impl AppOpsService {
    /// How `IAppOpsService` answers `name`: every operation is allowed.
    pub fn answer(&self, name: &str) -> (a: Answer)
        ensures
            a == appops_answer(name@),
    {
        let n = chars_of(name);
        let n = n.as_slice();
        if is(n, "checkOperation") || is(n, "checkAudioOperation") || is(n, "checkOperationForDevice") || is(n, "checkPackage") || is(n, "checkOperationRaw") {
            Answer::Int(0)
        } else if is(n, "permissionToOpCode") {
            Answer::Int(-1i32)
        } else if is(n, "noteOperation") || is(n, "noteProxyOperation") || is(n, "noteProxyOperationWithState") || is(n, "startOperation") || is(n, "startProxyOperation") {
            Answer::Payload(Payload::SyncNotedOp)
        } else if is(n, "finishOperation") || is(n, "finishProxyOperation") || is(n, "startWatchingMode") || is(n, "stopWatchingMode") {
            Answer::Done
        } else if is(n, "shouldCollectNotes") {
            Answer::Bool(false)
        } else if begins(n, "is") || begins(n, "should") {
            Answer::Bool(false)
        } else if begins(n, "get") || begins(n, "check") {
            Answer::Int(0)
        } else {
            Answer::Done
        }
    }
}

/// The `android.media.IAudioService` binder service.
pub struct AudioService;

pub open spec fn audio_answer(name: Seq<char>) -> Answer {
    if name == "getStreamMinVolume"@ {
        Answer::Int(0)
    } else if name == "getStreamVolume"@ || name == "getLastAudibleStreamVolume"@ {
        Answer::Int(10)
    } else if name == "getStreamMaxVolume"@ {
        Answer::Int(15)
    } else if name == "getRingerModeExternal"@ || name == "getRingerModeInternal"@ {
        Answer::Int(2)
    } else if name == "getMode"@ {
        Answer::Int(0)
    } else if starts_with(name, "is"@) || starts_with(name, "are"@) || starts_with(name, "has"@) || starts_with(name, "should"@) {
        Answer::Bool(false)
    } else if starts_with(name, "get"@) {
        Answer::Int(0)
    } else {
        Answer::Done
    }
}

impl AudioService {
    /// How `IAudioService` answers `name`: quiet defaults.
    pub fn answer(&self, name: &str) -> (a: Answer)
        ensures
            a == audio_answer(name@),
    {
        let n = chars_of(name);
        let n = n.as_slice();
        if is(n, "getStreamMinVolume") {
            Answer::Int(0)
        } else if is(n, "getStreamVolume") || is(n, "getLastAudibleStreamVolume") {
            Answer::Int(10)
        } else if is(n, "getStreamMaxVolume") {
            Answer::Int(15)
        } else if is(n, "getRingerModeExternal") || is(n, "getRingerModeInternal") {
            Answer::Int(2)
        } else if is(n, "getMode") {
            Answer::Int(0)
        } else if begins(n, "is") || begins(n, "are") || begins(n, "has") || begins(n, "should") {
            Answer::Bool(false)
        } else if begins(n, "get") {
            Answer::Int(0)
        } else {
            Answer::Done
        }
    }
}

/// The `android.hardware.ICameraService` binder service.
pub struct CameraService;

pub open spec fn camera_answer(name: Seq<char>) -> Answer {
    if name == "getNumberOfCameras"@ {
        Answer::Int(0)
    } else if name == "addListener"@ {
        Answer::Int(0)
    } else if name == "removeListener"@ || name == "notifyDisplayConfigurationChange"@ || name == "notifyDeviceStateChange"@ || name == "notifySystemEvent"@ {
        Answer::Done
    } else if name == "getConcurrentCameraIds"@ {
        Answer::Int(0)
    } else if name == "isHiddenPhysicalCamera"@ || name == "isConcurrentSessionConfigurationSupported"@ {
        Answer::Bool(false)
    } else {
        Answer::Refused
    }
}

impl CameraService {
    /// How `ICameraService` answers `name`: no cameras.
    pub fn answer(&self, name: &str) -> (a: Answer)
        ensures
            a == camera_answer(name@),
    {
        let n = chars_of(name);
        let n = n.as_slice();
        if is(n, "getNumberOfCameras") {
            Answer::Int(0)
        } else if is(n, "addListener") {
            Answer::Int(0)
        } else if is(n, "removeListener") || is(n, "notifyDisplayConfigurationChange") || is(n, "notifyDeviceStateChange") || is(n, "notifySystemEvent") {
            Answer::Done
        } else if is(n, "getConcurrentCameraIds") {
            Answer::Int(0)
        } else if is(n, "isHiddenPhysicalCamera") || is(n, "isConcurrentSessionConfigurationSupported") {
            Answer::Bool(false)
        } else {
            Answer::Refused
        }
    }
}

/// The `android.content.IContentService` binder service.
pub struct ContentService;

pub open spec fn content_answer(name: Seq<char>) -> Answer {
    if name == "registerContentObserver"@ || name == "unregisterContentObserver"@ || name == "notifyChange"@ || name == "requestSync"@ || name == "sync"@ || name == "syncAsUser"@ || name == "cancelSync"@ || name == "cancelSyncAsUser"@ || name == "cancelRequest"@ || name == "setSyncAutomatically"@ || name == "setSyncAutomaticallyAsUser"@ || name == "addPeriodicSync"@ || name == "removePeriodicSync"@ || name == "setIsSyncable"@ || name == "setIsSyncableAsUser"@ || name == "setMasterSyncAutomatically"@ || name == "setMasterSyncAutomaticallyAsUser"@ || name == "addStatusChangeListener"@ || name == "removeStatusChangeListener"@ || name == "putCache"@ || name == "resetTodayStats"@ || name == "onDbCorruption"@ {
        Answer::Done
    } else if name == "getIsSyncable"@ || name == "getIsSyncableAsUser"@ {
        Answer::Int(0)
    } else if name == "getMasterSyncAutomatically"@ || name == "getMasterSyncAutomaticallyAsUser"@ || name == "getSyncAutomatically"@ || name == "getSyncAutomaticallyAsUser"@ || name == "isSyncActive"@ || name == "isSyncPending"@ || name == "isSyncPendingAsUser"@ {
        Answer::Bool(false)
    } else if name == "getCurrentSyncs"@ || name == "getCurrentSyncsAsUser"@ || name == "getPeriodicSyncs"@ || name == "getSyncAdapterTypes"@ || name == "getSyncAdapterTypesAsUser"@ {
        Answer::EmptyList
    } else if name == "getSyncAdapterPackagesForAuthorityAsUser"@ {
        Answer::NullArray
    } else if name == "getSyncAdapterPackageAsUser"@ {
        Answer::NullText
    } else if name == "getSyncStatus"@ || name == "getSyncStatusAsUser"@ || name == "getCache"@ {
        Answer::TypedNone
    } else if starts_with(name, "is"@) {
        Answer::Bool(false)
    } else if starts_with(name, "get"@) {
        Answer::Int(0)
    } else {
        Answer::Done
    }
}

impl ContentService {
    /// How `IContentService` answers `name`: observers and syncs are accepted, nothing syncs.
    pub fn answer(&self, name: &str) -> (a: Answer)
        ensures
            a == content_answer(name@),
    {
        let n = chars_of(name);
        let n = n.as_slice();
        if is(n, "registerContentObserver") || is(n, "unregisterContentObserver") || is(n, "notifyChange") || is(n, "requestSync") || is(n, "sync") || is(n, "syncAsUser") || is(n, "cancelSync") || is(n, "cancelSyncAsUser") || is(n, "cancelRequest") || is(n, "setSyncAutomatically") || is(n, "setSyncAutomaticallyAsUser") || is(n, "addPeriodicSync") || is(n, "removePeriodicSync") || is(n, "setIsSyncable") || is(n, "setIsSyncableAsUser") || is(n, "setMasterSyncAutomatically") || is(n, "setMasterSyncAutomaticallyAsUser") || is(n, "addStatusChangeListener") || is(n, "removeStatusChangeListener") || is(n, "putCache") || is(n, "resetTodayStats") || is(n, "onDbCorruption") {
            Answer::Done
        } else if is(n, "getIsSyncable") || is(n, "getIsSyncableAsUser") {
            Answer::Int(0)
        } else if is(n, "getMasterSyncAutomatically") || is(n, "getMasterSyncAutomaticallyAsUser") || is(n, "getSyncAutomatically") || is(n, "getSyncAutomaticallyAsUser") || is(n, "isSyncActive") || is(n, "isSyncPending") || is(n, "isSyncPendingAsUser") {
            Answer::Bool(false)
        } else if is(n, "getCurrentSyncs") || is(n, "getCurrentSyncsAsUser") || is(n, "getPeriodicSyncs") || is(n, "getSyncAdapterTypes") || is(n, "getSyncAdapterTypesAsUser") {
            Answer::EmptyList
        } else if is(n, "getSyncAdapterPackagesForAuthorityAsUser") {
            Answer::NullArray
        } else if is(n, "getSyncAdapterPackageAsUser") {
            Answer::NullText
        } else if is(n, "getSyncStatus") || is(n, "getSyncStatusAsUser") || is(n, "getCache") {
            Answer::TypedNone
        } else if begins(n, "is") {
            Answer::Bool(false)
        } else if begins(n, "get") {
            Answer::Int(0)
        } else {
            Answer::Done
        }
    }
}

/// The `com.android.internal.view.IInputMethodManager` binder service.
pub struct InputMethodService;

pub open spec fn input_method_answer(name: Seq<char>) -> Answer {
    if name == "addClient"@ || name == "startInputOrWindowGainedFocus"@ || name == "reportPerceptible"@ || name == "removeImeSurfaceFromWindow"@ {
        Answer::Done
    } else if name == "isImeTraceEnabled"@ || name == "isStylusHandwritingAvailableAsUser"@ {
        Answer::Bool(false)
    } else if name == "getInputMethodList"@ || name == "getEnabledInputMethodList"@ || name == "getEnabledInputMethodSubtypeList"@ {
        Answer::NullArray
    } else if name == "getCurrentInputMethodInfoAsUser"@ || name == "getLastInputMethodSubtype"@ || name == "getCurrentInputMethodSubtype"@ {
        Answer::TypedNone
    } else {
        Answer::Refused
    }
}

impl InputMethodService {
    /// How `IInputMethodManager` answers `name`: no input method.
    pub fn answer(&self, name: &str) -> (a: Answer)
        ensures
            a == input_method_answer(name@),
    {
        let n = chars_of(name);
        let n = n.as_slice();
        if is(n, "addClient") || is(n, "startInputOrWindowGainedFocus") || is(n, "reportPerceptible") || is(n, "removeImeSurfaceFromWindow") {
            Answer::Done
        } else if is(n, "isImeTraceEnabled") || is(n, "isStylusHandwritingAvailableAsUser") {
            Answer::Bool(false)
        } else if is(n, "getInputMethodList") || is(n, "getEnabledInputMethodList") || is(n, "getEnabledInputMethodSubtypeList") {
            Answer::NullArray
        } else if is(n, "getCurrentInputMethodInfoAsUser") || is(n, "getLastInputMethodSubtype") || is(n, "getCurrentInputMethodSubtype") {
            Answer::TypedNone
        } else {
            Answer::Refused
        }
    }
}

/// The `android.os.IPowerManager` binder service.
pub struct PowerService;

pub open spec fn power_answer(name: Seq<char>) -> Answer {
    if name == "acquireWakeLock"@ || name == "acquireWakeLockWithUid"@ || name == "releaseWakeLock"@ || name == "updateWakeLockUids"@ || name == "updateWakeLockWorkSource"@ || name == "userActivity"@ {
        Answer::Done
    } else if name == "isWakeLockLevelSupported"@ || name == "isWakeLockLevelSupportedWithDisplayId"@ || name == "isInteractive"@ || name == "isDisplayInteractive"@ {
        Answer::Bool(true)
    } else if name == "isPowerSaveMode"@ || name == "isDeviceIdleMode"@ || name == "isLightDeviceIdleMode"@ || name == "areAutoPowerSaveModesEnabled"@ || name == "isBatterySaverSupported"@ || name == "isLowPowerStandbyEnabled"@ {
        Answer::Bool(false)
    } else if starts_with(name, "is"@) || starts_with(name, "has"@) || starts_with(name, "can"@) {
        Answer::Bool(false)
    } else if starts_with(name, "get"@) {
        Answer::Int(0)
    } else {
        Answer::Done
    }
}

impl PowerService {
    /// How `IPowerManager` answers `name`: wake locks are accepted, the display is interactive.
    pub fn answer(&self, name: &str) -> (a: Answer)
        ensures
            a == power_answer(name@),
    {
        let n = chars_of(name);
        let n = n.as_slice();
        if is(n, "acquireWakeLock") || is(n, "acquireWakeLockWithUid") || is(n, "releaseWakeLock") || is(n, "updateWakeLockUids") || is(n, "updateWakeLockWorkSource") || is(n, "userActivity") {
            Answer::Done
        } else if is(n, "isWakeLockLevelSupported") || is(n, "isWakeLockLevelSupportedWithDisplayId") || is(n, "isInteractive") || is(n, "isDisplayInteractive") {
            Answer::Bool(true)
        } else if is(n, "isPowerSaveMode") || is(n, "isDeviceIdleMode") || is(n, "isLightDeviceIdleMode") || is(n, "areAutoPowerSaveModesEnabled") || is(n, "isBatterySaverSupported") || is(n, "isLowPowerStandbyEnabled") {
            Answer::Bool(false)
        } else if begins(n, "is") || begins(n, "has") || begins(n, "can") {
            Answer::Bool(false)
        } else if begins(n, "get") {
            Answer::Int(0)
        } else {
            Answer::Done
        }
    }
}

/// The `android.os.IThermalService` binder service.
pub struct ThermalService;

pub open spec fn thermal_answer(name: Seq<char>) -> Answer {
    if name == "registerThermalEventListener"@ || name == "registerThermalEventListenerWithType"@ || name == "unregisterThermalEventListener"@ || name == "registerThermalStatusListener"@ || name == "registerThermalStatusListenerForDevice"@ || name == "unregisterThermalStatusListener"@ || name == "registerThermalHeadroomListener"@ || name == "unregisterThermalHeadroomListener"@ {
        Answer::Bool(true)
    } else if name == "getCurrentThermalStatus"@ || name == "getCurrentThermalStatusForDevice"@ {
        Answer::Int(0)
    } else if name == "getCurrentTemperatures"@ || name == "getCurrentTemperaturesWithType"@ || name == "getCurrentCoolingDevices"@ || name == "getCurrentCoolingDevicesWithType"@ || name == "getThermalHeadroomThresholds"@ {
        Answer::EmptyList
    } else if name == "getThermalHeadroom"@ {
        Answer::FloatBits(0x7fc0_0000u32)
    } else if starts_with(name, "register"@) || starts_with(name, "unregister"@) || starts_with(name, "is"@) {
        Answer::Bool(true)
    } else if starts_with(name, "get"@) {
        Answer::Int(0)
    } else {
        Answer::Done
    }
}

impl ThermalService {
    /// How `IThermalService` answers `name`: no thermal status, listeners accepted.
    pub fn answer(&self, name: &str) -> (a: Answer)
        ensures
            a == thermal_answer(name@),
    {
        let n = chars_of(name);
        let n = n.as_slice();
        if is(n, "registerThermalEventListener") || is(n, "registerThermalEventListenerWithType") || is(n, "unregisterThermalEventListener") || is(n, "registerThermalStatusListener") || is(n, "registerThermalStatusListenerForDevice") || is(n, "unregisterThermalStatusListener") || is(n, "registerThermalHeadroomListener") || is(n, "unregisterThermalHeadroomListener") {
            Answer::Bool(true)
        } else if is(n, "getCurrentThermalStatus") || is(n, "getCurrentThermalStatusForDevice") {
            Answer::Int(0)
        } else if is(n, "getCurrentTemperatures") || is(n, "getCurrentTemperaturesWithType") || is(n, "getCurrentCoolingDevices") || is(n, "getCurrentCoolingDevicesWithType") || is(n, "getThermalHeadroomThresholds") {
            Answer::EmptyList
        } else if is(n, "getThermalHeadroom") {
            Answer::FloatBits(0x7fc0_0000u32)
        } else if begins(n, "register") || begins(n, "unregister") || begins(n, "is") {
            Answer::Bool(true)
        } else if begins(n, "get") {
            Answer::Int(0)
        } else {
            Answer::Done
        }
    }
}

/// The `android.app.IUiModeManager` binder service.
pub struct UiModeService;

pub open spec fn uimode_answer(name: Seq<char>) -> Answer {
    if name == "getCurrentModeType"@ {
        Answer::Int(1)
    } else if name == "getNightMode"@ {
        Answer::Int(1)
    } else if name == "getNightModeCustomType"@ {
        Answer::Int(-1i32)
    } else if name == "getContrast"@ {
        Answer::FloatBits(0u32)
    } else if name == "isUiModeLocked"@ || name == "isNightModeLocked"@ {
        Answer::Bool(false)
    } else if starts_with(name, "is"@) {
        Answer::Bool(false)
    } else if starts_with(name, "get"@) {
        Answer::Int(0)
    } else {
        Answer::Done
    }
}

impl UiModeService {
    /// How `IUiModeManager` answers `name`: a normal, non-night, unlocked mode.
    pub fn answer(&self, name: &str) -> (a: Answer)
        ensures
            a == uimode_answer(name@),
    {
        let n = chars_of(name);
        let n = n.as_slice();
        if is(n, "getCurrentModeType") {
            Answer::Int(1)
        } else if is(n, "getNightMode") {
            Answer::Int(1)
        } else if is(n, "getNightModeCustomType") {
            Answer::Int(-1i32)
        } else if is(n, "getContrast") {
            Answer::FloatBits(0u32)
        } else if is(n, "isUiModeLocked") || is(n, "isNightModeLocked") {
            Answer::Bool(false)
        } else if begins(n, "is") {
            Answer::Bool(false)
        } else if begins(n, "get") {
            Answer::Int(0)
        } else {
            Answer::Done
        }
    }
}

/// The `android.app.IUriGrantsManager` binder service.
pub struct UriGrantsService;

pub open spec fn uri_grants_answer(name: Seq<char>) -> Answer {
    if name == "takePersistableUriPermission"@ || name == "releasePersistableUriPermission"@ || name == "clearGrantedUriPermissions"@ {
        Answer::Done
    } else if name == "getGrantedUriPermissions"@ || name == "getUriPermissions"@ {
        Answer::EmptySlice
    } else {
        Answer::Done
    }
}

impl UriGrantsService {
    /// How `IUriGrantsManager` answers `name`: grants are accepted, none are listed.
    pub fn answer(&self, name: &str) -> (a: Answer)
        ensures
            a == uri_grants_answer(name@),
    {
        let n = chars_of(name);
        let n = n.as_slice();
        if is(n, "takePersistableUriPermission") || is(n, "releasePersistableUriPermission") || is(n, "clearGrantedUriPermissions") {
            Answer::Done
        } else if is(n, "getGrantedUriPermissions") || is(n, "getUriPermissions") {
            Answer::EmptySlice
        } else {
            Answer::Done
        }
    }
}

/// The `android.view.IWindowManager` binder service.
pub struct WindowService;

pub open spec fn window_answer(name: Seq<char>) -> Answer {
    if name == "getCurrentAnimatorScale"@ {
        Answer::FloatBits(0x3f80_0000u32)
    } else if name == "hasNavigationBar"@ {
        Answer::Bool(false)
    } else {
        Answer::Refused
    }
}

impl WindowService {
    /// How `IWindowManager` answers `name`.
    pub fn answer(&self, name: &str) -> (a: Answer)
        ensures
            a == window_answer(name@),
    {
        let n = chars_of(name);
        let n = n.as_slice();
        if is(n, "getCurrentAnimatorScale") {
            Answer::FloatBits(0x3f80_0000u32)
        } else if is(n, "hasNavigationBar") {
            Answer::Bool(false)
        } else {
            Answer::Refused
        }
    }
}

/// The `android.gui.SensorServer` binder service.
pub struct SensorService;

pub open spec fn sensor_answer(name: Seq<char>) -> Answer {
    if name == "getSensorList"@ || name == "getDynamicSensorList"@ || name == "getRuntimeSensorList"@ {
        Answer::Raw(0)
    } else if name == "registerClientListener"@ {
        Answer::Raw(0)
    } else {
        Answer::Refused
    }
}

impl SensorService {
    /// How the sensor server answers `name` (its replies carry no exception header): no sensors.
    pub fn answer(&self, name: &str) -> (a: Answer)
        ensures
            a == sensor_answer(name@),
    {
        let n = chars_of(name);
        let n = n.as_slice();
        if is(n, "getSensorList") || is(n, "getDynamicSensorList") || is(n, "getRuntimeSensorList") {
            Answer::Raw(0)
        } else if is(n, "registerClientListener") {
            Answer::Raw(0)
        } else {
            Answer::Refused
        }
    }
}

/// The `android.os.IUserManager` binder service.
pub struct UserService;

pub open spec fn user_answer(name: Seq<char>) -> Answer {
    if name == "isUserUnlocked"@ || name == "isUserUnlockingOrUnlocked"@ || name == "isUserRunning"@ || name == "isUserForeground"@ || name == "isUserAdmin"@ {
        Answer::Bool(true)
    } else if name == "isManagedProfile"@ || name == "isQuietModeEnabled"@ || name == "isSameProfileGroup"@ || name == "isUserOfType"@ || name == "isDemoUser"@ || name == "isRestricted"@ || name == "isUserSwitcherEnabled"@ || name == "isUserNameSet"@ || name == "isProfile"@ || name == "isCloneProfile"@ || name == "isPrivateProfile"@ || name == "isUserTypeEnabled"@ || name == "isHeadlessSystemUserMode"@ {
        Answer::Bool(false)
    } else if name == "hasUserRestriction"@ || name == "hasUserRestrictionOnAnyUser"@ || name == "hasBaseUserRestriction"@ {
        Answer::Bool(false)
    } else if name == "getUserSerialNumber"@ || name == "getUserHandle"@ || name == "getMainDisplayIdAssignedToUser"@ {
        Answer::Int(0)
    } else if name == "getProfileParentId"@ {
        Answer::Payload(Payload::EchoUser)
    } else if name == "getUserInfo"@ {
        Answer::Payload(Payload::UserInfoOf)
    } else if name == "getProfileIds"@ {
        Answer::Payload(Payload::ProfileIds)
    } else if name == "getUsers"@ {
        Answer::Payload(Payload::Users)
    } else if name == "getUserName"@ {
        Answer::Text("Owner")
    } else if name == "getUserStartRealtime"@ || name == "getUserUnlockRealtime"@ {
        Answer::Long(0)
    } else {
        Answer::Refused
    }
}

impl UserService {
    /// How `IUserManager` answers `name`: one user, id 0, unlocked, no restrictions.
    pub fn answer(&self, name: &str) -> (a: Answer)
        ensures
            a == user_answer(name@),
    {
        let n = chars_of(name);
        let n = n.as_slice();
        if is(n, "isUserUnlocked") || is(n, "isUserUnlockingOrUnlocked") || is(n, "isUserRunning") || is(n, "isUserForeground") || is(n, "isUserAdmin") {
            Answer::Bool(true)
        } else if is(n, "isManagedProfile") || is(n, "isQuietModeEnabled") || is(n, "isSameProfileGroup") || is(n, "isUserOfType") || is(n, "isDemoUser") || is(n, "isRestricted") || is(n, "isUserSwitcherEnabled") || is(n, "isUserNameSet") || is(n, "isProfile") || is(n, "isCloneProfile") || is(n, "isPrivateProfile") || is(n, "isUserTypeEnabled") || is(n, "isHeadlessSystemUserMode") {
            Answer::Bool(false)
        } else if is(n, "hasUserRestriction") || is(n, "hasUserRestrictionOnAnyUser") || is(n, "hasBaseUserRestriction") {
            Answer::Bool(false)
        } else if is(n, "getUserSerialNumber") || is(n, "getUserHandle") || is(n, "getMainDisplayIdAssignedToUser") {
            Answer::Int(0)
        } else if is(n, "getProfileParentId") {
            Answer::Payload(Payload::EchoUser)
        } else if is(n, "getUserInfo") {
            Answer::Payload(Payload::UserInfoOf)
        } else if is(n, "getProfileIds") {
            Answer::Payload(Payload::ProfileIds)
        } else if is(n, "getUsers") {
            Answer::Payload(Payload::Users)
        } else if is(n, "getUserName") {
            Answer::Text("Owner")
        } else if is(n, "getUserStartRealtime") || is(n, "getUserUnlockRealtime") {
            Answer::Long(0)
        } else {
            Answer::Refused
        }
    }
}

/// The `android.os.storage.IStorageManager` binder service.
pub struct StorageService;

pub open spec fn storage_answer(name: Seq<char>) -> Answer {
    if name == "getVolumeList"@ {
        Answer::Payload(Payload::VolumeList)
    } else if name == "getExternalStorageMountMode"@ {
        Answer::Int(1)
    } else if name == "getVolumes"@ || name == "getVolumeRecords"@ || name == "getDisks"@ {
        Answer::Int(0)
    } else if name == "mkdirs"@ {
        Answer::Done
    } else if starts_with(name, "is"@) || starts_with(name, "are"@) {
        Answer::Bool(false)
    } else if starts_with(name, "get"@) {
        Answer::TypedNone
    } else {
        Answer::Done
    }
}

impl StorageService {
    /// How `IStorageManager` answers `name`: one mounted primary volume.
    pub fn answer(&self, name: &str) -> (a: Answer)
        ensures
            a == storage_answer(name@),
    {
        let n = chars_of(name);
        let n = n.as_slice();
        if is(n, "getVolumeList") {
            Answer::Payload(Payload::VolumeList)
        } else if is(n, "getExternalStorageMountMode") {
            Answer::Int(1)
        } else if is(n, "getVolumes") || is(n, "getVolumeRecords") || is(n, "getDisks") {
            Answer::Int(0)
        } else if is(n, "mkdirs") {
            Answer::Done
        } else if begins(n, "is") || begins(n, "are") {
            Answer::Bool(false)
        } else if begins(n, "get") {
            Answer::TypedNone
        } else {
            Answer::Done
        }
    }
}

/// The `android.app.modes.IContextualModeManager` binder service.
pub struct ModesService;

pub open spec fn modes_answer(name: Seq<char>) -> Answer {
    if name == "getZenMode"@ {
        Answer::Int(0)
    } else if name == "isModeSyncSupported"@ || name == "isModeSyncEnabled"@ {
        Answer::Bool(false)
    } else if name == "isNotificationPolicyAccessGranted"@ || name == "isNotificationPolicyAccessGrantedForPackage"@ {
        Answer::Bool(true)
    } else if name == "getAutomaticZenRules"@ {
        Answer::EmptySlice
    } else if name == "getModes"@ || name == "getEnabledZenPackages"@ {
        Answer::Int(0)
    } else if name == "getConsolidatedNotificationPolicy"@ || name == "getNotificationPolicy"@ || name == "getDefaultZenPolicy"@ || name == "getAutomaticZenRule"@ || name == "getZenModeConfig"@ {
        Answer::TypedNone
    } else if name == "getRuleInstanceCount"@ || name == "getAutomaticZenRuleState"@ {
        Answer::Int(0)
    } else if name == "registerModeListener"@ || name == "unregisterModeListener"@ || name == "registerModeSyncListener"@ || name == "unregisterModeSyncListener"@ || name == "setModeSyncEnabled"@ || name == "setZenMode"@ || name == "notifyConditions"@ || name == "setNotificationPolicy"@ || name == "setAutomaticZenRuleState"@ || name == "setManualZenRuleDeviceEffects"@ || name == "setInterruptionFilter"@ || name == "cleanUpCallersAfter"@ || name == "requestBindProvider"@ || name == "requestUnbindProvider"@ || name == "requestInterruptionFilterFromListener"@ || name == "setNotificationPolicyAccessGranted"@ || name == "setNotificationPolicyAccessGrantedForUser"@ {
        Answer::Done
    } else if starts_with(name, "is"@) || starts_with(name, "are"@) || starts_with(name, "can"@) || starts_with(name, "matches"@) {
        Answer::Bool(false)
    } else if starts_with(name, "get"@) {
        Answer::TypedNone
    } else {
        Answer::Done
    }
}

impl ModesService {
    /// How `IContextualModeManager` answers `name`: do-not-disturb off, no rules.
    pub fn answer(&self, name: &str) -> (a: Answer)
        ensures
            a == modes_answer(name@),
    {
        let n = chars_of(name);
        let n = n.as_slice();
        if is(n, "getZenMode") {
            Answer::Int(0)
        } else if is(n, "isModeSyncSupported") || is(n, "isModeSyncEnabled") {
            Answer::Bool(false)
        } else if is(n, "isNotificationPolicyAccessGranted") || is(n, "isNotificationPolicyAccessGrantedForPackage") {
            Answer::Bool(true)
        } else if is(n, "getAutomaticZenRules") {
            Answer::EmptySlice
        } else if is(n, "getModes") || is(n, "getEnabledZenPackages") {
            Answer::Int(0)
        } else if is(n, "getConsolidatedNotificationPolicy") || is(n, "getNotificationPolicy") || is(n, "getDefaultZenPolicy") || is(n, "getAutomaticZenRule") || is(n, "getZenModeConfig") {
            Answer::TypedNone
        } else if is(n, "getRuleInstanceCount") || is(n, "getAutomaticZenRuleState") {
            Answer::Int(0)
        } else if is(n, "registerModeListener") || is(n, "unregisterModeListener") || is(n, "registerModeSyncListener") || is(n, "unregisterModeSyncListener") || is(n, "setModeSyncEnabled") || is(n, "setZenMode") || is(n, "notifyConditions") || is(n, "setNotificationPolicy") || is(n, "setAutomaticZenRuleState") || is(n, "setManualZenRuleDeviceEffects") || is(n, "setInterruptionFilter") || is(n, "cleanUpCallersAfter") || is(n, "requestBindProvider") || is(n, "requestUnbindProvider") || is(n, "requestInterruptionFilterFromListener") || is(n, "setNotificationPolicyAccessGranted") || is(n, "setNotificationPolicyAccessGrantedForUser") {
            Answer::Done
        } else if begins(n, "is") || begins(n, "are") || begins(n, "can") || begins(n, "matches") {
            Answer::Bool(false)
        } else if begins(n, "get") {
            Answer::TypedNone
        } else {
            Answer::Done
        }
    }
}

/// The `android.hardware.input.IInputManager` binder service.
pub struct InputService;

pub open spec fn input_answer(name: Seq<char>) -> Answer {
    if name == "getInputDeviceIds"@ {
        Answer::Payload(Payload::KeyboardIds)
    } else if name == "getInputDevice"@ {
        Answer::Payload(Payload::KeyboardOf)
    } else if name == "getTouchCalibrationForInputDevice"@ || name == "getKeyboardLayout"@ || name == "getCurrentKeyboardLayoutForInputDevice"@ || name == "getKeyboardLayoutForInputDevice"@ || name == "getInputDeviceBluetoothAddress"@ || name == "getBatteryState"@ || name == "getSensorList"@ || name == "getLightsList"@ || name == "getLightState"@ || name == "getVelocityTrackerStrategy"@ || name == "getInputDeviceVibrator"@ || name == "getInputDeviceVibratorIds"@ || name == "getKeyboardLayoutsForInputDevice"@ || name == "getKeyboardLayouts"@ || name == "getKeyboardLayoutListForInputDevice"@ || name == "getMouseScrollingAcceleration"@ {
        Answer::TypedNone
    } else if name == "isInputDeviceEnabled"@ || name == "hasKeys"@ || name == "isMouse"@ || name == "injectInputEvent"@ || name == "injectInputEventToTarget"@ || name == "isPointerAccelerationEnabled"@ || name == "isTouchpadTapToClickEnabled"@ || name == "isStylusPointerIconEnabled"@ || name == "isVibrating"@ || name == "isInTabletMode"@ || name == "isMicMuted"@ || name == "registerLightListener"@ || name == "isTouchpadRightClickZoneEnabled"@ || name == "isTouchpadTapDraggingEnabled"@ || name == "isMouseReverseVerticalScrollingEnabled"@ || name == "isMouseSwapPrimaryButtonEnabled"@ || name == "isMouseScrollingAccelerationEnabled"@ || name == "areMouseAccelerationsEnabled"@ {
        Answer::Bool(false)
    } else if name == "getMousePointerSpeed"@ || name == "getHostUsiVersion"@ || name == "getMaximumObscuringOpacityForTouch"@ || name == "getTouchpadPointerSpeed"@ || name == "getMouseScrollingSpeed"@ || name == "getMouseAccelerationValue"@ {
        Answer::Int(0)
    } else if starts_with(name, "register"@) || starts_with(name, "unregister"@) || starts_with(name, "set"@) || starts_with(name, "remove"@) || starts_with(name, "add"@) || starts_with(name, "notify"@) || starts_with(name, "request"@) || starts_with(name, "cancel"@) || starts_with(name, "clear"@) || name == "vibrate"@ || name == "vibrateCombined"@ || name == "cancelVibrate"@ || name == "monitorGestureInput"@ {
        Answer::Done
    } else {
        Answer::Refused
    }
}

impl InputService {
    /// How `IInputManager` answers `name`: the virtual keyboard is the one device.
    pub fn answer(&self, name: &str) -> (a: Answer)
        ensures
            a == input_answer(name@),
    {
        let n = chars_of(name);
        let n = n.as_slice();
        if is(n, "getInputDeviceIds") {
            Answer::Payload(Payload::KeyboardIds)
        } else if is(n, "getInputDevice") {
            Answer::Payload(Payload::KeyboardOf)
        } else if is(n, "getTouchCalibrationForInputDevice") || is(n, "getKeyboardLayout") || is(n, "getCurrentKeyboardLayoutForInputDevice") || is(n, "getKeyboardLayoutForInputDevice") || is(n, "getInputDeviceBluetoothAddress") || is(n, "getBatteryState") || is(n, "getSensorList") || is(n, "getLightsList") || is(n, "getLightState") || is(n, "getVelocityTrackerStrategy") || is(n, "getInputDeviceVibrator") || is(n, "getInputDeviceVibratorIds") || is(n, "getKeyboardLayoutsForInputDevice") || is(n, "getKeyboardLayouts") || is(n, "getKeyboardLayoutListForInputDevice") || is(n, "getMouseScrollingAcceleration") {
            Answer::TypedNone
        } else if is(n, "isInputDeviceEnabled") || is(n, "hasKeys") || is(n, "isMouse") || is(n, "injectInputEvent") || is(n, "injectInputEventToTarget") || is(n, "isPointerAccelerationEnabled") || is(n, "isTouchpadTapToClickEnabled") || is(n, "isStylusPointerIconEnabled") || is(n, "isVibrating") || is(n, "isInTabletMode") || is(n, "isMicMuted") || is(n, "registerLightListener") || is(n, "isTouchpadRightClickZoneEnabled") || is(n, "isTouchpadTapDraggingEnabled") || is(n, "isMouseReverseVerticalScrollingEnabled") || is(n, "isMouseSwapPrimaryButtonEnabled") || is(n, "isMouseScrollingAccelerationEnabled") || is(n, "areMouseAccelerationsEnabled") {
            Answer::Bool(false)
        } else if is(n, "getMousePointerSpeed") || is(n, "getHostUsiVersion") || is(n, "getMaximumObscuringOpacityForTouch") || is(n, "getTouchpadPointerSpeed") || is(n, "getMouseScrollingSpeed") || is(n, "getMouseAccelerationValue") {
            Answer::Int(0)
        } else if begins(n, "register") || begins(n, "unregister") || begins(n, "set") || begins(n, "remove") || begins(n, "add") || begins(n, "notify") || begins(n, "request") || begins(n, "cancel") || begins(n, "clear") || is(n, "vibrate") || is(n, "vibrateCombined") || is(n, "cancelVibrate") || is(n, "monitorGestureInput") {
            Answer::Done
        } else {
            Answer::Refused
        }
    }
}

/// The `android.content.IBulkCursor` binder service.
pub struct BulkCursorService;

pub open spec fn bulk_cursor_answer(name: Seq<char>) -> Answer {
    Answer::Int(0)
}

impl BulkCursorService {
    /// How `IBulkCursor` answers any call: a zero after the header.
    pub fn answer(&self, name: &str) -> (a: Answer)
        ensures
            a == bulk_cursor_answer(name@),
    {
        Answer::Int(0)
    }
}

/// The `android.media.IMediaPlayerService` binder service.
pub struct MediaPlayerService;

pub open spec fn media_player_answer(name: Seq<char>) -> Answer {
    if name == "CREATE"@ {
        Answer::Payload(Payload::CreatePlayer)
    } else if name == "CREATE_METADATA_RETRIEVER"@ {
        Answer::Payload(Payload::CreateRetriever)
    } else {
        Answer::Raw(0)
    }
}

impl MediaPlayerService {
    /// How `IMediaPlayerService` answers `name` (no exception header).
    pub fn answer(&self, name: &str) -> (a: Answer)
        ensures
            a == media_player_answer(name@),
    {
        let n = chars_of(name);
        let n = n.as_slice();
        if is(n, "CREATE") {
            Answer::Payload(Payload::CreatePlayer)
        } else if is(n, "CREATE_METADATA_RETRIEVER") {
            Answer::Payload(Payload::CreateRetriever)
        } else {
            Answer::Raw(0)
        }
    }
}

/// The `android.media.IMediaMetadataRetriever` binder service.
pub struct MetadataRetrieverInstance;

pub open spec fn retriever_answer(name: Seq<char>) -> Answer {
    if name == "GET_FRAME_AT_TIME"@ || name == "GET_IMAGE_AT_INDEX"@ || name == "GET_IMAGE_RECT_AT_INDEX"@ || name == "GET_FRAME_AT_INDEX"@ || name == "EXTRACT_ALBUM_ART"@ {
        Answer::Payload(Payload::NullBinder)
    } else {
        Answer::Raw(0)
    }
}

impl MetadataRetrieverInstance {
    /// How `IMediaMetadataRetriever` answers `name` (no exception header): no frames, no metadata.
    pub fn answer(&self, name: &str) -> (a: Answer)
        ensures
            a == retriever_answer(name@),
    {
        let n = chars_of(name);
        let n = n.as_slice();
        if is(n, "GET_FRAME_AT_TIME") || is(n, "GET_IMAGE_AT_INDEX") || is(n, "GET_IMAGE_RECT_AT_INDEX") || is(n, "GET_FRAME_AT_INDEX") || is(n, "EXTRACT_ALBUM_ART") {
            Answer::Payload(Payload::NullBinder)
        } else {
            Answer::Raw(0)
        }
    }
}

/// The `android.app.INotificationManager` binder service.
pub struct NotificationService;

pub open spec fn notification_answer(name: Seq<char>) -> Answer {
    if name == "enqueueNotificationWithTag"@ {
        Answer::Payload(Payload::Post)
    } else if name == "cancelNotificationWithTag"@ {
        Answer::Payload(Payload::Cancel)
    } else if name == "cancelAllNotifications"@ {
        Answer::Payload(Payload::CancelAll)
    } else if name == "areNotificationsEnabled"@ || name == "areNotificationsEnabledForPackage"@ || name == "canShowBadge"@ || name == "canNotifyAsPackage"@ {
        Answer::Bool(true)
    } else if name == "getImportance"@ || name == "getPackageImportance"@ {
        Answer::Int(3)
    } else if name == "getZenMode"@ || name == "getInterruptionFilterFromListener"@ || name == "getBubblePreferenceForPackage"@ {
        Answer::Int(0)
    } else if name == "getNotificationChannels"@ || name == "getNotificationChannelGroups"@ || name == "getActiveNotifications"@ || name == "getAppActiveNotifications"@ || name == "getNotificationChannelsForPackage"@ {
        Answer::EmptySlice
    } else if starts_with(name, "is"@) || starts_with(name, "are"@) || starts_with(name, "can"@) || starts_with(name, "should"@) || starts_with(name, "has"@) {
        Answer::Bool(false)
    } else if starts_with(name, "get"@) {
        Answer::TypedNone
    } else {
        Answer::Done
    }
}

impl NotificationService {
    /// How `INotificationManager` answers `name`: posts and cancels go to the shade; everything is enabled.
    pub fn answer(&self, name: &str) -> (a: Answer)
        ensures
            a == notification_answer(name@),
    {
        let n = chars_of(name);
        let n = n.as_slice();
        if is(n, "enqueueNotificationWithTag") {
            Answer::Payload(Payload::Post)
        } else if is(n, "cancelNotificationWithTag") {
            Answer::Payload(Payload::Cancel)
        } else if is(n, "cancelAllNotifications") {
            Answer::Payload(Payload::CancelAll)
        } else if is(n, "areNotificationsEnabled") || is(n, "areNotificationsEnabledForPackage") || is(n, "canShowBadge") || is(n, "canNotifyAsPackage") {
            Answer::Bool(true)
        } else if is(n, "getImportance") || is(n, "getPackageImportance") {
            Answer::Int(3)
        } else if is(n, "getZenMode") || is(n, "getInterruptionFilterFromListener") || is(n, "getBubblePreferenceForPackage") {
            Answer::Int(0)
        } else if is(n, "getNotificationChannels") || is(n, "getNotificationChannelGroups") || is(n, "getActiveNotifications") || is(n, "getAppActiveNotifications") || is(n, "getNotificationChannelsForPackage") {
            Answer::EmptySlice
        } else if begins(n, "is") || begins(n, "are") || begins(n, "can") || begins(n, "should") || begins(n, "has") {
            Answer::Bool(false)
        } else if begins(n, "get") {
            Answer::TypedNone
        } else {
            Answer::Done
        }
    }
}

/// The `android.app.IAlarmManager` binder service.
pub struct AlarmService;

pub open spec fn alarm_answer(name: Seq<char>) -> Answer {
    if name == "canScheduleExactAlarms"@ || name == "hasScheduleExactAlarm"@ {
        Answer::Bool(true)
    } else if name == "getNextAlarmClock"@ {
        Answer::TypedNone
    } else if name == "getNextWakeFromIdleTime"@ || name == "getPrioritizedAlarmDelay"@ {
        Answer::Long(0)
    } else if name == "getConfigVersion"@ {
        Answer::Int(1)
    } else if name == "setTime"@ {
        Answer::Bool(true)
    } else if name == "setTimeZone"@ {
        Answer::Done
    } else if name == "set"@ {
        Answer::Payload(Payload::AlarmSet)
    } else if name == "remove"@ {
        Answer::Payload(Payload::AlarmRemove)
    } else if name == "removeAll"@ {
        Answer::Payload(Payload::AlarmRemoveAll)
    } else if starts_with(name, "is"@) || starts_with(name, "has"@) || starts_with(name, "can"@) {
        Answer::Bool(true)
    } else if starts_with(name, "get"@) {
        Answer::Int(0)
    } else {
        Answer::Done
    }
}

impl AlarmService {
    /// How `IAlarmManager` answers `name`: exact alarms allowed; `set`, `remove` and `removeAll` go to the alarm book.
    pub fn answer(&self, name: &str) -> (a: Answer)
        ensures
            a == alarm_answer(name@),
    {
        let n = chars_of(name);
        let n = n.as_slice();
        if is(n, "canScheduleExactAlarms") || is(n, "hasScheduleExactAlarm") {
            Answer::Bool(true)
        } else if is(n, "getNextAlarmClock") {
            Answer::TypedNone
        } else if is(n, "getNextWakeFromIdleTime") || is(n, "getPrioritizedAlarmDelay") {
            Answer::Long(0)
        } else if is(n, "getConfigVersion") {
            Answer::Int(1)
        } else if is(n, "setTime") {
            Answer::Bool(true)
        } else if is(n, "setTimeZone") {
            Answer::Done
        } else if is(n, "set") {
            Answer::Payload(Payload::AlarmSet)
        } else if is(n, "remove") {
            Answer::Payload(Payload::AlarmRemove)
        } else if is(n, "removeAll") {
            Answer::Payload(Payload::AlarmRemoveAll)
        } else if begins(n, "is") || begins(n, "has") || begins(n, "can") {
            Answer::Bool(true)
        } else if begins(n, "get") {
            Answer::Int(0)
        } else {
            Answer::Done
        }
    }
}



/// The `android.content.pm.IShortcutService` binder service.
pub struct ShortcutService;

pub open spec fn shortcut_answer(name: Seq<char>) -> Answer {
    if name == "getMaxShortcutCountPerActivity"@ {
        Answer::Int(15)
    } else if name == "getRemainingCallCount"@ {
        Answer::Int(10)
    } else if name == "getRateLimitResetTime"@ {
        Answer::Long(0)
    } else if name == "getIconMaxDimensions"@ {
        Answer::Int(128)
    } else if name == "isRequestPinItemSupported"@ || name == "hasShareTargets"@ {
        Answer::Bool(false)
    } else if name == "setDynamicShortcuts"@ || name == "addDynamicShortcuts"@ || name == "updateShortcuts"@ || name == "removeDynamicShortcuts"@ || name == "removeAllDynamicShortcuts"@ || name == "removeLongLivedShortcuts"@ || name == "disableShortcuts"@ || name == "enableShortcuts"@ {
        Answer::Bool(true)
    } else if name == "getShortcuts"@ || name == "getShareTargets"@ {
        Answer::EmptySlice
    } else if name == "reportShortcutUsed"@ || name == "resetThrottling"@ || name == "onApplicationActive"@ || name == "pushDynamicShortcut"@ {
        Answer::Done
    } else if starts_with(name, "is"@) || starts_with(name, "has"@) || starts_with(name, "can"@) {
        Answer::Bool(false)
    } else if starts_with(name, "get"@) {
        Answer::Int(0)
    } else {
        Answer::Done
    }
}

impl ShortcutService {
    /// How `IShortcutService` answers `name`: shortcut edits are accepted, none are kept.
    pub fn answer(&self, name: &str) -> (a: Answer)
        ensures
            a == shortcut_answer(name@),
    {
        let n = chars_of(name);
        let n = n.as_slice();
        if is(n, "getMaxShortcutCountPerActivity") {
            Answer::Int(15)
        } else if is(n, "getRemainingCallCount") {
            Answer::Int(10)
        } else if is(n, "getRateLimitResetTime") {
            Answer::Long(0)
        } else if is(n, "getIconMaxDimensions") {
            Answer::Int(128)
        } else if is(n, "isRequestPinItemSupported") || is(n, "hasShareTargets") {
            Answer::Bool(false)
        } else if is(n, "setDynamicShortcuts") || is(n, "addDynamicShortcuts") || is(n, "updateShortcuts") || is(n, "removeDynamicShortcuts") || is(n, "removeAllDynamicShortcuts") || is(n, "removeLongLivedShortcuts") || is(n, "disableShortcuts") || is(n, "enableShortcuts") {
            Answer::Bool(true)
        } else if is(n, "getShortcuts") || is(n, "getShareTargets") {
            Answer::EmptySlice
        } else if is(n, "reportShortcutUsed") || is(n, "resetThrottling") || is(n, "onApplicationActive") || is(n, "pushDynamicShortcut") {
            Answer::Done
        } else if begins(n, "is") || begins(n, "has") || begins(n, "can") {
            Answer::Bool(false)
        } else if begins(n, "get") {
            Answer::Int(0)
        } else {
            Answer::Done
        }
    }
}

/// The `android.media.IAudioFlingerService` binder service.
pub struct AudioFlingerService;

pub open spec fn audio_flinger_answer(name: Seq<char>) -> Answer {
    if name == "registerClient"@ {
        Answer::Done
    } else if name == "getPrimaryOutputSamplingRate"@ {
        Answer::Int(48000)
    } else if name == "getPrimaryOutputFrameCount"@ {
        Answer::Long(1024)
    } else if name == "masterVolume"@ || name == "streamVolume"@ {
        Answer::FloatBits(0x3f80_0000u32)
    } else if name == "newAudioUniqueId"@ {
        Answer::Int(1)
    } else if name == "sampleRate"@ {
        Answer::Int(48000)
    } else if name == "frameCount"@ {
        Answer::Long(1024)
    } else if name == "latency"@ {
        Answer::Int(10)
    } else if name == "systemReady"@ || name == "audioPolicyReady"@ {
        Answer::Silent
    } else {
        Answer::Int(0)
    }
}

impl AudioFlingerService {
    /// How `IAudioFlingerService` answers `name`: one 48 kHz output at full volume.
    pub fn answer(&self, name: &str) -> (a: Answer)
        ensures
            a == audio_flinger_answer(name@),
    {
        let n = chars_of(name);
        let n = n.as_slice();
        if is(n, "registerClient") {
            Answer::Done
        } else if is(n, "getPrimaryOutputSamplingRate") {
            Answer::Int(48000)
        } else if is(n, "getPrimaryOutputFrameCount") {
            Answer::Long(1024)
        } else if is(n, "masterVolume") || is(n, "streamVolume") {
            Answer::FloatBits(0x3f80_0000u32)
        } else if is(n, "newAudioUniqueId") {
            Answer::Int(1)
        } else if is(n, "sampleRate") {
            Answer::Int(48000)
        } else if is(n, "frameCount") {
            Answer::Long(1024)
        } else if is(n, "latency") {
            Answer::Int(10)
        } else if is(n, "systemReady") || is(n, "audioPolicyReady") {
            Answer::Silent
        } else {
            Answer::Int(0)
        }
    }
}

/// The `android.media.IAudioPolicyService` binder service.
pub struct AudioPolicyService;

pub open spec fn audio_policy_answer(name: Seq<char>) -> Answer {
    if name == "onNewAudioModulesAvailable"@ {
        Answer::Silent
    } else if name == "registerClient"@ {
        Answer::Done
    } else if name == "listAudioProductStrategies"@ || name == "listAudioVolumeGroups"@ {
        Answer::Int(0)
    } else if name == "getStrategyForStream"@ || name == "getVolumeGroupFromAudioAttributes"@ || name == "getProductStrategyFromAudioAttributes"@ {
        Answer::Int(0)
    } else if name == "getDevicesForAttributes"@ {
        Answer::Int(0)
    } else if name == "getStreamVolumeIndex"@ || name == "getVolumeIndexForAttributes"@ || name == "getMaxVolumeIndexForAttributes"@ {
        Answer::Int(100)
    } else if name == "getMinVolumeIndexForAttributes"@ {
        Answer::Int(0)
    } else if name == "isStreamActive"@ || name == "isStreamActiveRemotely"@ || name == "isSourceActive"@ {
        Answer::Int(0)
    } else {
        Answer::Int(0)
    }
}

impl AudioPolicyService {
    /// How `IAudioPolicyService` answers `name`: no strategies or devices, full volume indexes.
    pub fn answer(&self, name: &str) -> (a: Answer)
        ensures
            a == audio_policy_answer(name@),
    {
        let n = chars_of(name);
        let n = n.as_slice();
        if is(n, "onNewAudioModulesAvailable") {
            Answer::Silent
        } else if is(n, "registerClient") {
            Answer::Done
        } else if is(n, "listAudioProductStrategies") || is(n, "listAudioVolumeGroups") {
            Answer::Int(0)
        } else if is(n, "getStrategyForStream") || is(n, "getVolumeGroupFromAudioAttributes") || is(n, "getProductStrategyFromAudioAttributes") {
            Answer::Int(0)
        } else if is(n, "getDevicesForAttributes") {
            Answer::Int(0)
        } else if is(n, "getStreamVolumeIndex") || is(n, "getVolumeIndexForAttributes") || is(n, "getMaxVolumeIndexForAttributes") {
            Answer::Int(100)
        } else if is(n, "getMinVolumeIndexForAttributes") {
            Answer::Int(0)
        } else if is(n, "isStreamActive") || is(n, "isStreamActiveRemotely") || is(n, "isSourceActive") {
            Answer::Int(0)
        } else {
            Answer::Int(0)
        }
    }
}

/// The `android.app.IActivityClientController` binder service.
pub struct ActivityClientController;

pub open spec fn activity_client_answer(name: Seq<char>) -> Answer {
    if name == "activityDestroyed"@ {
        Answer::Payload(Payload::ActivityDestroyed)
    } else if name == "activityIdle"@ || name == "activityResumed"@ || name == "activityPaused"@ || name == "activityStopped"@ || name == "activityTopResumedStateLost"@ || name == "activityRefreshed"@ || name == "activityLocalRelaunch"@ || name == "activityRelaunched"@ {
        Answer::Done
    } else if name == "getRequestedOrientation"@ {
        Answer::Int(-1i32)
    } else if name == "setRequestedOrientation"@ || name == "setTaskDescription"@ || name == "reportSizeConfigurations"@ || name == "setImmersive"@ || name == "setRecentsScreenshotEnabled"@ || name == "overrideActivityTransition"@ || name == "clearOverrideActivityTransition"@ || name == "setShouldDockBigOverlays"@ || name == "setPictureInPictureParams"@ || name == "setForceSendResultForMediaProjection"@ || name == "onPictureInPictureUiStateChanged"@ || name == "reportActivityFullyDrawn"@ {
        Answer::Done
    } else if name == "isImmersive"@ || name == "isTopOfTask"@ || name == "willActivityBeVisible"@ || name == "isRootVoiceInteraction"@ || name == "shouldUpRecreateTask"@ || name == "navigateUpTo"@ || name == "moveActivityTaskToBack"@ || name == "convertFromTranslucent"@ || name == "convertToTranslucent"@ || name == "enterPictureInPictureMode"@ || name == "requestVisibleBehind"@ || name == "showAssistFromActivity"@ || name == "isRequestedToLaunchInTaskFragment"@ {
        Answer::Bool(false)
    } else if name == "getTaskForActivity"@ {
        Answer::Int(1)
    } else if name == "getDisplayId"@ {
        Answer::Int(0)
    } else if name == "getActivityCallerToken"@ || name == "getActivityCallerPackage"@ || name == "getLaunchedFromPackage"@ || name == "getCallingPackage"@ {
        Answer::NullText
    } else if name == "finishActivity"@ {
        Answer::Payload(Payload::FinishActivity)
    } else if name == "finishActivityAffinity"@ {
        Answer::Payload(Payload::FinishActivityAffinity)
    } else {
        Answer::Refused
    }
}

impl ActivityClientController {
    /// How `IActivityClientController` answers `name`: lifecycle reports are taken, a destroyed activity leaves the task, finishing destroys.
    pub fn answer(&self, name: &str) -> (a: Answer)
        ensures
            a == activity_client_answer(name@),
    {
        let n = chars_of(name);
        let n = n.as_slice();
        if is(n, "activityDestroyed") {
            Answer::Payload(Payload::ActivityDestroyed)
        } else if is(n, "activityIdle") || is(n, "activityResumed") || is(n, "activityPaused") || is(n, "activityStopped") || is(n, "activityTopResumedStateLost") || is(n, "activityRefreshed") || is(n, "activityLocalRelaunch") || is(n, "activityRelaunched") {
            Answer::Done
        } else if is(n, "getRequestedOrientation") {
            Answer::Int(-1i32)
        } else if is(n, "setRequestedOrientation") || is(n, "setTaskDescription") || is(n, "reportSizeConfigurations") || is(n, "setImmersive") || is(n, "setRecentsScreenshotEnabled") || is(n, "overrideActivityTransition") || is(n, "clearOverrideActivityTransition") || is(n, "setShouldDockBigOverlays") || is(n, "setPictureInPictureParams") || is(n, "setForceSendResultForMediaProjection") || is(n, "onPictureInPictureUiStateChanged") || is(n, "reportActivityFullyDrawn") {
            Answer::Done
        } else if is(n, "isImmersive") || is(n, "isTopOfTask") || is(n, "willActivityBeVisible") || is(n, "isRootVoiceInteraction") || is(n, "shouldUpRecreateTask") || is(n, "navigateUpTo") || is(n, "moveActivityTaskToBack") || is(n, "convertFromTranslucent") || is(n, "convertToTranslucent") || is(n, "enterPictureInPictureMode") || is(n, "requestVisibleBehind") || is(n, "showAssistFromActivity") || is(n, "isRequestedToLaunchInTaskFragment") {
            Answer::Bool(false)
        } else if is(n, "getTaskForActivity") {
            Answer::Int(1)
        } else if is(n, "getDisplayId") {
            Answer::Int(0)
        } else if is(n, "getActivityCallerToken") || is(n, "getActivityCallerPackage") || is(n, "getLaunchedFromPackage") || is(n, "getCallingPackage") {
            Answer::NullText
        } else if is(n, "finishActivity") {
            Answer::Payload(Payload::FinishActivity)
        } else if is(n, "finishActivityAffinity") {
            Answer::Payload(Payload::FinishActivityAffinity)
        } else {
            Answer::Refused
        }
    }
}

/// A plain binder token the app holds (an activity token, an assist
/// token): it answers no transaction.
pub struct Token(pub &'static str);

impl Token {
    /// The interface descriptor tokens report.
    pub fn descriptor() -> (d: &'static str)
        ensures
            d@ == "org.aro.Token"@,
    {
        "org.aro.Token"
    }

    /// Every transaction on a token is refused.
    pub fn answer(&self, name: &str) -> (a: Answer)
        ensures
            a == Answer::Refused,
    {
        Answer::Refused
    }
}

// ---------------------------------------------------------------------------
// Location
// ---------------------------------------------------------------------------

/// The `android.location.ILocationManager` binder service: one provider,
/// `network`, behind the desktop's consent-gated location portal.
pub struct LocationService {
    pub host_uid: u32,
}

pub open spec fn location_answer(name: Seq<char>) -> Answer {
    if name == "getAllProviders"@ || name == "getProviders"@ {
        Answer::Payload(Payload::ProviderList)
    } else if name == "getBestProvider"@ {
        Answer::Text("network")
    } else if name == "isLocationEnabledForUser"@ {
        Answer::Payload(Payload::LocationEnabled)
    } else if name == "hasProvider"@ || name == "isProviderEnabledForUser"@ {
        Answer::Payload(Payload::ProviderCheck)
    } else if name == "getLastLocation"@ {
        Answer::TypedNone
    } else if name == "getCurrentLocation"@ {
        Answer::Payload(Payload::CurrentLocation)
    } else {
        Answer::Refused
    }
}

pub open spec fn provider_spec(method: Seq<char>, provider: Option<Seq<char>>, enabled: bool) -> bool {
    provider == Some("network"@) && (method == "hasProvider"@ || enabled)
}

/// The most items a location request's uid or tag list may hold.
pub const MAX_REQUEST_LIST: i32 = 1024;

impl LocationService {
    /// How `ILocationManager` answers `name`. The last known fix is never
    /// given out: a fix needs this request's consent.
    pub fn answer(&self, name: &str) -> (a: Answer)
        ensures
            a == location_answer(name@),
    {
        let n = chars_of(name);
        let n = n.as_slice();
        if is(n, "getAllProviders") || is(n, "getProviders") {
            Answer::Payload(Payload::ProviderList)
        } else if is(n, "getBestProvider") {
            Answer::Text("network")
        } else if is(n, "isLocationEnabledForUser") {
            Answer::Payload(Payload::LocationEnabled)
        } else if is(n, "hasProvider") || is(n, "isProviderEnabledForUser") {
            Answer::Payload(Payload::ProviderCheck)
        } else if is(n, "getLastLocation") {
            Answer::TypedNone
        } else if is(n, "getCurrentLocation") {
            Answer::Payload(Payload::CurrentLocation)
        } else {
            Answer::Refused
        }
    }

    /// `hasProvider` / `isProviderEnabledForUser`: the `network` provider
    /// exists, and is enabled when the desktop has location `enabled`.
    pub fn provider_available(method: &str, provider: Option<&str>, enabled: bool) -> (r: bool)
        ensures
            r == provider_spec(method@, match provider { Some(p) => Some(p@), None => None }, enabled),
    {
        let is_network = match provider {
            Some(p) => {
                let pc = chars_of(p);
                is(pc.as_slice(), "network")
            },
            None => false,
        };
        let m = chars_of(method);
        is_network && (is(m.as_slice(), "hasProvider") || enabled)
    }

    /// A fix is looked for only from the `network` provider, for a caller
    /// the supervisor allowed, when host location setup is there.
    pub fn wants_fix(provider: Option<&str>, caller_allowed: bool, has_setup: bool) -> (r: bool)
        ensures
            r == ((match provider { Some(p) => p@ == "network"@, None => false }) && caller_allowed && has_setup),
    {
        let is_network = match provider {
            Some(p) => {
                let pc = chars_of(p);
                is(pc.as_slice(), "network")
            },
            None => false,
        };
        is_network && caller_allowed && has_setup
    }

    /// A request's uid or tag list length is acceptable.
    pub fn list_len_ok(n: i32) -> (r: bool)
        ensures
            r == (n <= MAX_REQUEST_LIST),
    {
        n <= MAX_REQUEST_LIST
    }
}

} // verus!
