//! What the device is, and which versions run on it.

use crate::api;
use crate::chars;
use crate::chars::{chars_of, has_prefix, same_text, split_lines, split_words, text_of, trim};
use crate::config::Config;
use crate::external::{text2, text5};
use vstd::prelude::*;
use vstd::string::*;

verus! {

pub const HUMANE_DISPLAY_VERSION_SETTING: &'static str = "penumbra.humane_display_version";

pub const NOT_ANDROID: &'static str = "package metadata is only available on Android";

#[derive(Debug, Clone, PartialEq, Eq)]
pub struct ComponentVersion {
    pub role: &'static str,
    pub label: &'static str,
    pub package_name: &'static str,
    pub version_name: Option<String>,
    pub error: Option<String>,
}

#[derive(Debug, Clone, PartialEq, Eq)]
pub struct OsVersionInfo {
    pub humane_display_version: Option<String>,
    pub android_release: Option<String>,
    pub android_sdk: Option<String>,
    pub security_patch: Option<String>,
}

#[derive(Debug, Clone, PartialEq, Eq)]
pub struct DeviceVersionSnapshot {
    pub captured_at_ms: u128,
    pub runtime_server_version: String,
    pub components: Vec<ComponentVersion>,
    pub os: OsVersionInfo,
}

/// A package that belongs to the server.
#[derive(Debug, Clone, Copy, PartialEq, Eq)]
pub struct ManagedComponent {
    pub role: &'static str,
    pub label: &'static str,
    pub package_name: &'static str,
}

#[derive(Debug, PartialEq, Eq)]
pub struct DeviceInfo {
    pub display_name: String,
    pub http_bind_addr: String,
    pub grpc_bind_addr: String,
    pub llm_provider: String,
    pub llm_model: String,
    pub versions: DeviceVersionSnapshot,
}

#[derive(Debug, Clone, Copy, PartialEq, Eq)]
pub struct DeviceVersionCollector;

#[derive(Debug, Clone, Copy, PartialEq, Eq)]
pub struct DeviceApi;

/// What a version is of.
pub open spec fn is_of(v: ComponentVersion, c: ManagedComponent) -> bool {
    v.role@ == c.role@ && v.label@ == c.label@ && v.package_name@ == c.package_name@
}

/// Whether a list of packages holds this one: a line says so.
pub open spec fn lists_package(lines: Seq<Seq<char>>, package: Seq<char>) -> bool {
    exists|i: int|
        0 <= i < lines.len() && chars::trimmed(#[trigger] lines[i]) == "package:"@ + package
}

/// The value of a field in one of some words `field=value`, if that is not empty.
pub open spec fn field_value(word: Seq<char>, field: Seq<char>) -> Option<Seq<char>> {
    let start = field + "="@;
    if chars::starts_with(word, start) && word.len() > start.len() {
        Some(word.skip(start.len() as int))
    } else {
        None
    }
}

/// The first value of a field among some words.
pub open spec fn first_field(words: Seq<Seq<char>>, field: Seq<char>) -> Option<Seq<char>>
    decreases words.len(),
{
    if words.len() == 0 {
        None
    } else {
        match field_value(words[0], field) {
            Some(v) => Some(v),
            None => first_field(words.drop_first(), field),
        }
    }
}

/// The first value of a field in what `dumpsys` prints.
pub fn parse_dumpsys_field(output: &str, field: &str) -> (r: Option<String>)
    ensures
        chars::opt_text(r) == first_field(chars::words(output@), field@),
{
    let words = split_words(output);
    let start = text2(field, "=");
    let ghost all = chars::texts(words@);
    let n: usize = chars_of(&start).len();
    let mut i: usize = 0;
    assert(all.skip(0) =~= all);
    while i < words.len()
        invariant
            i <= words@.len(),
            all == chars::texts(words@),
            all == chars::words(output@),
            start@ == field@ + "="@,
            n == start@.len(),
            first_field(all, field@) == first_field(all.skip(i as int), field@),
        decreases words@.len() - i,
    {
        proof {
            assert(all.skip(i as int)[0] == words@[i as int]@);
            assert(all.skip(i as int).drop_first() =~= all.skip(i + 1));
        }
        if has_prefix(&words[i], &start) {
            let v = chars_of(&words[i]);
            if v.len() > n {
                let value = text_of(&v, n, v.len());
                assert(value@ =~= words@[i as int]@.skip(n as int));
                return Some(value);
            }
        }
        i += 1;
    }
    None
}

/// A value without the white space at either end, unless nothing or `null` is left.
pub open spec fn some_value(t: Seq<char>) -> Option<Seq<char>> {
    let v = chars::trimmed(t);
    if v.len() == 0 || v == "null"@ {
        None
    } else {
        Some(v)
    }
}

/// A value without the white space at either end, unless nothing or `null` is left.
pub fn non_empty_value(value: &str) -> (r: Option<String>)
    ensures
        chars::opt_text(r) == some_value(value@),
{
    let trimmed = trim(value);
    if trimmed.as_str().is_empty() || same_text(&trimmed, "null") {
        None
    } else {
        Some(trimmed)
    }
}

/// A property or setting that was asked for: what was printed, if that worked and is a
/// value.
pub fn probed_value(output: Result<String, String>) -> (r: Option<String>)
    ensures
        chars::opt_text(r) == match output {
            Ok(t) => some_value(t@),
            Err(_) => None,
        },
{
    match output {
        Ok(t) => non_empty_value(&t),
        Err(_) => None,
    }
}

/// What a command that was run comes to: what it printed, or what went wrong.
pub fn run_command(command: &str, success: bool, status: &str, stdout: &str, stderr: &str) -> (r: Result<
    String,
    String,
>)
    ensures
        if success {
            r is Ok && r->Ok_0@ == chars::trimmed(stdout@)
        } else {
            r is Err && r->Err_0@ == command@ + " exited with "@ + status@ + ": "@ + (
            if chars::trimmed(stderr@).len() == 0 {
                chars::trimmed(stdout@)
            } else {
                chars::trimmed(stderr@)
            })
        },
{
    if success {
        return Ok(trim(stdout));
    }
    let errors = trim(stderr);
    let message = if errors.as_str().is_empty() {
        trim(stdout)
    } else {
        errors
    };
    Err(text5(command, " exited with ", status, ": ", &message))
}

impl DeviceVersionCollector {
    /// The packages that belong to the server.
    pub fn managed_components() -> (r: Vec<ManagedComponent>)
        ensures
            r@.len() == 4,
            r@[0].package_name@ == "com.penumbraos.systeminjector"@,
            r@[0].role@ == "installer"@,
            r@[0].label@ == "System Injector"@,
            r@[1].package_name@ == "com.penumbraos.hook"@,
            r@[1].role@ == "hook"@,
            r@[1].label@ == "Hook"@,
            r@[2].package_name@ == "com.penumbraos.server"@,
            r@[2].role@ == "server"@,
            r@[2].label@ == "Server"@,
            r@[3].package_name@ == "com.penumbraos.hook.injector"@,
            r@[3].role@ == "injector"@,
            r@[3].label@ == "Hook Injector"@,
    {
        let mut v: Vec<ManagedComponent> = Vec::new();
        v.push(
            ManagedComponent {
                role: "installer",
                label: "System Injector",
                package_name: "com.penumbraos.systeminjector",
            },
        );
        v.push(
            ManagedComponent { role: "hook", label: "Hook", package_name: "com.penumbraos.hook" },
        );
        v.push(
            ManagedComponent {
                role: "server",
                label: "Server",
                package_name: "com.penumbraos.server",
            },
        );
        v.push(
            ManagedComponent {
                role: "injector",
                label: "Hook Injector",
                package_name: "com.penumbraos.hook.injector",
            },
        );
        v
    }

    /// Whether a package is installed, from the list of packages that was printed, if it
    /// was.
    pub fn is_installed(component: &ManagedComponent, listing: &Result<String, String>) -> (r: bool)
        ensures
            r == match *listing {
                Ok(t) => lists_package(chars::lines(t@), component.package_name@),
                Err(_) => false,
            },
    {
        match listing {
            Ok(t) => {
                let lines = split_lines(t);
                let wanted = text2("package:", component.package_name);
                let ghost all = chars::texts(lines@);
                let mut i: usize = 0;
                while i < lines.len()
                    invariant
                        i <= lines@.len(),
                        all == chars::texts(lines@),
                        all == chars::lines(t@),
                        *listing == Ok::<String, String>(*t),
                        wanted@ == "package:"@ + component.package_name@,
                        forall|k: int|
                            0 <= k < i ==> chars::trimmed(#[trigger] all[k]) != wanted@,
                    decreases lines@.len() - i,
                {
                    assert(all[i as int] == lines@[i as int]@);
                    if same_text(&trim(&lines[i]), &wanted) {
                        assert(lists_package(all, component.package_name@));
                        return true;
                    }
                    i += 1;
                }
                false
            },
            Err(_) => false,
        }
    }

    /// A package's version away from Android.
    pub fn unavailable(component: &ManagedComponent) -> (r: ComponentVersion)
        ensures
            is_of(r, *component),
            r.version_name is None,
            r.error is Some,
            r.error->0@ == NOT_ANDROID@,
    {
        ComponentVersion {
            role: component.role,
            label: component.label,
            package_name: component.package_name,
            version_name: None,
            error: Some(String::from_str(NOT_ANDROID)),
        }
    }

    /// A package's version, from the list of packages and from what `dumpsys` printed of it.
    /// A package that is not installed has none.
    pub fn query_component_version(
        component: &ManagedComponent,
        listing: &Result<String, String>,
        dump: Result<String, String>,
    ) -> (r: Option<ComponentVersion>)
        ensures
            r is Some <==> (*listing matches Ok(t) && lists_package(
                chars::lines(t@),
                component.package_name@,
            )),
            r matches Some(v) ==> is_of(v, *component) && match dump {
                Ok(t) => {
                    &&& chars::opt_text(v.version_name) == first_field(
                        chars::words(t@),
                        "versionName"@,
                    )
                    &&& v.error is None
                },
                Err(e) => v.version_name is None && v.error == Some(e),
            },
    {
        if !DeviceVersionCollector::is_installed(component, listing) {
            return None;
        }
        match dump {
            Ok(t) => Some(
                ComponentVersion {
                    role: component.role,
                    label: component.label,
                    package_name: component.package_name,
                    version_name: parse_dumpsys_field(&t, "versionName"),
                    error: None,
                },
            ),
            Err(e) => Some(
                ComponentVersion {
                    role: component.role,
                    label: component.label,
                    package_name: component.package_name,
                    version_name: None,
                    error: Some(e),
                },
            ),
        }
    }

    /// The versions that were found, in order.
    pub fn found(versions: Vec<Option<ComponentVersion>>) -> (r: Vec<ComponentVersion>)
        ensures
            r@ == found_versions(versions@),
    {
        let ghost all = versions@;
        let mut out: Vec<ComponentVersion> = Vec::new();
        assert(out@ =~= found_versions(all.take(0)));
        for v in it: versions
            invariant
                it.seq() == all,
                out@ == found_versions(all.take(it.index())),
        {
            let ghost n = it.index();
            proof {
                assert(all.take(n + 1).drop_last() =~= all.take(n));
                assert(all.take(n + 1).last() == v);
            }
            if let Some(version) = v {
                out.push(version);
            }
        }
        assert(all.take(all.len() as int) =~= all);
        out
    }

    /// A snapshot of the versions.
    pub fn collect(
        captured_at_ms: Option<u128>,
        server_version: &str,
        versions: Vec<Option<ComponentVersion>>,
        os: OsVersionInfo,
    ) -> (r: DeviceVersionSnapshot)
        ensures
            r.captured_at_ms == match captured_at_ms {
                Some(n) => n,
                None => 0,
            },
            r.runtime_server_version@ == server_version@,
            r.components@ == found_versions(versions@),
            r.os == os,
    {
        let captured_at_ms: u128 = match captured_at_ms {
            Some(n) => n,
            None => 0,
        };
        DeviceVersionSnapshot {
            captured_at_ms,
            runtime_server_version: String::from_str(server_version),
            components: DeviceVersionCollector::found(versions),
            os,
        }
    }
}

/// The versions that were found, in order.
pub open spec fn found_versions(versions: Seq<Option<ComponentVersion>>) -> Seq<ComponentVersion>
    decreases versions.len(),
{
    if versions.len() == 0 {
        Seq::empty()
    } else {
        let before = found_versions(versions.drop_last());
        match versions.last() {
            Some(v) => before.push(v),
            None => before,
        }
    }
}

impl DeviceApi {
    /// What a client is told of the device: the versions from a snapshot, but the display
    /// version as it is now.
    pub fn get_device(
        config: &Config,
        versions: DeviceVersionSnapshot,
        humane_display_version: Option<String>,
    ) -> (r: DeviceInfo)
        ensures
            r.display_name@ == api::server_name(*config),
            r.http_bind_addr == config.server.http_bind_addr,
            r.grpc_bind_addr == config.server.grpc_bind_addr,
            r.llm_provider == config.llm.provider,
            r.llm_model == config.llm.model,
            r.versions == (DeviceVersionSnapshot {
                os: OsVersionInfo { humane_display_version, ..versions.os },
                ..versions
            }),
    {
        let mut versions = versions;
        versions.os.humane_display_version = humane_display_version;
        DeviceInfo {
            display_name: api::display_name(config),
            http_bind_addr: config.server.http_bind_addr.clone(),
            grpc_bind_addr: config.server.grpc_bind_addr.clone(),
            llm_provider: config.llm.provider.clone(),
            llm_model: config.llm.model.clone(),
            versions,
        }
    }
}

// ---- Laws ----

/// A field is the first word that has its name, an equals sign and a value.
pub proof fn law_first_field_is_read(
    words: Seq<Seq<char>>,
    field: Seq<char>,
    value: Seq<char>,
    k: int,
)
    requires
        0 <= k < words.len(),
        value.len() > 0,
        words[k] == field + seq!['='] + value,
        forall|j: int| 0 <= j < k ==> field_value(#[trigger] words[j], field) is None,
    ensures
        first_field(words, field) == Some(value),
    decreases k,
{
    reveal_strlit("=");
    assert("="@ =~= seq!['=']);
    if k == 0 {
        let word = words[0];
        let start = field + seq!['='];
        assert(word.subrange(0, start.len() as int) =~= start);
        assert(word.skip(start.len() as int) =~= value);
    } else {
        assert(field_value(words[0], field) is None);
        let rest = words.drop_first();
        assert(rest[k - 1] == words[k]);
        assert forall|j: int| 0 <= j < k - 1 implies field_value(#[trigger] rest[j], field) is None by {
            assert(rest[j] == words[j + 1]);
        }
        law_first_field_is_read(rest, field, value, k - 1);
    }
}

/// A word without the name, or with nothing behind the equals sign, has no value.
pub proof fn law_other_words_have_no_value(word: Seq<char>, field: Seq<char>)
    ensures
        word == field + seq!['='] ==> field_value(word, field) is None,
        word.len() <= field.len() ==> field_value(word, field) is None,
        field_value(word, field) matches Some(v) ==> v.len() > 0 && word == field + seq!['='] + v,
{
    reveal_strlit("=");
    assert("="@ =~= seq!['=']);
    let start = field + "="@;
    if field_value(word, field) is Some {
        assert(word =~= word.subrange(0, start.len() as int) + word.skip(start.len() as int));
    }
}

/// A value is told without the white space around it, unless it is empty or `null`.
pub proof fn law_null_is_no_value(t: Seq<char>)
    ensures
        chars::trimmed(t).len() == 0 ==> some_value(t) is None,
        chars::trimmed(t) == "null"@ ==> some_value(t) is None,
        chars::trimmed(t).len() > 0 && chars::trimmed(t) != "null"@ ==> some_value(t) == Some(
            chars::trimmed(t),
        ),
{
}

/// A package is installed where a line of the list names it, and nothing else.
pub proof fn law_listed_package_is_installed(
    component: &ManagedComponent,
    listing: Result<String, String>,
    r: bool,
    k: int,
)
    requires
        call_ensures(DeviceVersionCollector::is_installed, (component, &listing), r),
    ensures
        listing is Err ==> !r,
        listing matches Ok(t) ==> (0 <= k < chars::lines(t@).len() && chars::trimmed(chars::lines(t@)[k])
            == "package:"@ + component.package_name@ ==> r),
        listing matches Ok(t) ==> (r ==> exists|i: int|
            0 <= i < chars::lines(t@).len() && chars::trimmed(#[trigger] chars::lines(t@)[i])
                == "package:"@ + component.package_name@),
{
}

/// The versions that were found are told, in order.
pub proof fn law_found_versions_are_told(
    versions: Seq<Option<ComponentVersion>>,
    last: Option<ComponentVersion>,
)
    ensures
        found_versions(Seq::empty()).len() == 0,
        last is None ==> found_versions(versions.push(last)) == found_versions(versions),
        last matches Some(v) ==> found_versions(versions.push(last)) == found_versions(versions).push(v),
{
    assert(versions.push(last).drop_last() =~= versions);
}

/// A component that is not installed is not told; one that is goes by its own names, with its
/// version, or with what went wrong.
pub proof fn law_installed_component_tells_its_version(
    component: &ManagedComponent,
    listing: Result<String, String>,
    dump: Result<String, String>,
    installed: bool,
    r: Option<ComponentVersion>,
)
    requires
        call_ensures(DeviceVersionCollector::is_installed, (component, &listing), installed),
        call_ensures(
            DeviceVersionCollector::query_component_version,
            (component, &listing, dump),
            r,
        ),
    ensures
        r is Some <==> installed,
        r matches Some(v) ==> v.role@ == component.role@ && v.label@ == component.label@
            && v.package_name@ == component.package_name@,
        r matches Some(v) ==> (dump matches Err(e) ==> v.error == Some(e) && v.version_name is None),
        r matches Some(v) ==> (dump matches Ok(t) ==> v.error is None && chars::opt_text(v.version_name)
            == first_field(chars::words(t@), "versionName"@)),
{
}

/// A command that succeeds gives its output; one that fails tells its name, its status and its
/// errors, or its output where it has none.
pub proof fn law_command_tells_its_output(
    command: &str,
    success: bool,
    status: &str,
    stdout: &str,
    stderr: &str,
    r: Result<String, String>,
)
    requires
        call_ensures(run_command, (command, success, status, stdout, stderr), r),
    ensures
        r is Ok <==> success,
        r matches Ok(t) ==> t@ == chars::trimmed(stdout@),
        r matches Err(e) ==> (chars::trimmed(stderr@).len() > 0 ==> e@ == command@ + " exited with "@
            + status@ + ": "@ + chars::trimmed(stderr@)),
        r matches Err(e) ==> (chars::trimmed(stderr@).len() == 0 ==> e@ == command@ + " exited with "@
            + status@ + ": "@ + chars::trimmed(stdout@)),
{
}

/// A snapshot holds what was found, and the device tells it with the display version of its own.
pub proof fn law_snapshot_holds_what_was_found(
    at: Option<u128>,
    version: &str,
    versions: Vec<Option<ComponentVersion>>,
    os: OsVersionInfo,
    config: Config,
    display: Option<String>,
    s: DeviceVersionSnapshot,
    d: DeviceInfo,
)
    requires
        call_ensures(DeviceVersionCollector::collect, (at, version, versions, os), s),
        call_ensures(DeviceApi::get_device, (&config, s, display), d),
    ensures
        at matches Some(n) ==> s.captured_at_ms == n,
        at is None ==> s.captured_at_ms == 0,
        s.runtime_server_version@ == version@,
        s.components@ == found_versions(versions@),
        s.os == os,
        d.versions.components == s.components,
        d.versions.captured_at_ms == s.captured_at_ms,
        d.versions.os.humane_display_version == display,
        d.versions.os.android_release == os.android_release,
        d.versions.os.android_sdk == os.android_sdk,
        d.versions.os.security_patch == os.security_patch,
        d.display_name@ == api::server_name(config),
        d.llm_provider == config.llm.provider,
        d.llm_model == config.llm.model,
        d.http_bind_addr == config.server.http_bind_addr,
        d.grpc_bind_addr == config.server.grpc_bind_addr,
{
}

} // verus!
