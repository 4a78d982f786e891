//! Build parameters: their resolution from caller-supplied values, with
//! defaults, and what a build derives from them.
use vstd::prelude::*;
use vstd::string::StringExecFns;
use crate::command::{sign_args, texts, CommandBuilder};
use crate::manifest::{patch_manifest, patched};
use vstd::utf8::encode_utf8;

verus! {

/// A build parameter that a caller can supply.
#[derive(Clone, Copy, Debug, PartialEq, Eq, Structural)]
pub enum ConfigKey {
    PackageName,
    VersionName,
    VersionCode,
    JavaHome,
    ZpakPath,
    Keystore,
    KeystorePass,
}

/// The value that `props` gives to `k`: the last pair with that key, as
/// with a map filled in order.
pub open spec fn lookup(props: Seq<(ConfigKey, String)>, k: ConfigKey) -> Option<Seq<char>>
    decreases props.len(),
{
    if props.len() == 0 {
        None
    } else if props.last().0 == k {
        Some(props.last().1@)
    } else {
        lookup(props.drop_last(), k)
    }
}

/// The value of `k` in `props`, or `default` where `props` has none.
pub open spec fn lookup_or(props: Seq<(ConfigKey, String)>, k: ConfigKey, default: Seq<char>) -> Seq<
    char,
> {
    match lookup(props, k) {
        Some(v) => v,
        None => default,
    }
}

/// The package identifier used when none is given.
pub open spec fn default_package() -> Seq<char> {
    "com.zone.app"@
}

/// The path of the Java runtime under the toolchain home `home`.
pub open spec fn java_under(home: Seq<char>, windows: bool) -> Seq<char> {
    home + "/bin/java"@ + if windows {
        ".exe"@
    } else {
        Seq::empty()
    }
}

/// The Java runtime a build runs: under the configured toolchain home, else
/// under the one the environment gives, else `java` as found on the search
/// path.
pub open spec fn java_program(
    configured: Option<Seq<char>>,
    from_env: Option<Seq<char>>,
    windows: bool,
) -> Seq<char> {
    match configured {
        Some(h) => java_under(h, windows),
        None => match from_env {
            Some(h) => java_under(h, windows),
            None => "java"@,
        },
    }
}

/// With no values supplied, the package identifier, version name and
/// version code take their defaults and the toolchain home stays unset.
pub proof fn lemma_defaults(props: Seq<(ConfigKey, String)>)
    requires
        props.len() == 0,
    ensures
        lookup_or(props, ConfigKey::PackageName, default_package()) == "com.zone.app"@,
        lookup_or(props, ConfigKey::VersionName, "1.0.0"@) == "1.0.0"@,
        lookup_or(props, ConfigKey::VersionCode, "10"@) == "10"@,
        lookup(props, ConfigKey::JavaHome) is None,
{
}

/// What a `Builder` holds.
pub struct BuilderView {
    pub package_name: Seq<char>,
    pub version: Seq<char>,
    pub version_code: Seq<char>,
    pub java_home: Option<Seq<char>>,
    pub sign_key: Seq<char>,
    pub zpak_path: Seq<char>,
    pub sign_key_pass: Seq<char>,
}

/// The parameters of one build. It is not changed after construction.
pub struct Builder {
    package_name: String,
    version: String,
    version_code: String,
    java_home: Option<String>,
    sign_key: String,
    zpak_path: String,
    sign_key_pass: String,
}

/// The text of an optional string.
pub open spec fn opt_text(o: Option<String>) -> Option<Seq<char>> {
    match o {
        Some(s) => Some(s@),
        None => None,
    }
}

impl View for Builder {
    type V = BuilderView;

    closed spec fn view(&self) -> BuilderView {
        BuilderView {
            package_name: self.package_name@,
            version: self.version@,
            version_code: self.version_code@,
            java_home: opt_text(self.java_home),
            sign_key: self.sign_key@,
            zpak_path: self.zpak_path@,
            sign_key_pass: self.sign_key_pass@,
        }
    }
}

/// The value of `k` in `props`, if any.
fn find(props: &Vec<(ConfigKey, String)>, k: ConfigKey) -> (r: Option<String>)
    ensures
        opt_text(r) == lookup(props@, k),
{
    let mut found: Option<String> = None;
    let mut i: usize = 0;
    while i < props.len()
        invariant
            i <= props@.len(),
            opt_text(found) == lookup(props@.subrange(0, i as int), k),
        decreases props@.len() - i,
    {
        let ghost prev = props@.subrange(0, i as int);
        assert(props@.subrange(0, i + 1).drop_last() =~= prev);
        if props[i].0 == k {
            found = Some(props[i].1.clone());
        }
        i = i + 1;
    }
    assert(props@.subrange(0, i as int) =~= props@);
    found
}

/// The value of `k` in `props`, or `default`.
fn find_or(props: &Vec<(ConfigKey, String)>, k: ConfigKey, default: &str) -> (r: String)
    ensures
        r@ == lookup_or(props@, k, default@),
{
    match find(props, k) {
        Some(v) => v,
        None => default.to_owned(),
    }
}

impl Builder {
    /// Resolves the parameters from `properties`. An absent package
    /// identifier, version name, version code, asset bundle path, keystore
    /// path or passphrase takes its default; an absent toolchain home stays
    /// unset.
    pub fn new(properties: &Vec<(ConfigKey, String)>) -> (r: Self)
        ensures
            r@.package_name == lookup_or(properties@, ConfigKey::PackageName, default_package()),
            r@.version == lookup_or(properties@, ConfigKey::VersionName, "1.0.0"@),
            r@.version_code == lookup_or(properties@, ConfigKey::VersionCode, "10"@),
            r@.java_home == lookup(properties@, ConfigKey::JavaHome),
            r@.zpak_path == lookup_or(properties@, ConfigKey::ZpakPath, "resource.zpak"@),
            r@.sign_key == lookup_or(properties@, ConfigKey::Keystore, "android.keystore"@),
            r@.sign_key_pass == lookup_or(properties@, ConfigKey::KeystorePass, ""@),
    {
        Builder {
            package_name: find_or(properties, ConfigKey::PackageName, "com.zone.app"),
            version: find_or(properties, ConfigKey::VersionName, "1.0.0"),
            version_code: find_or(properties, ConfigKey::VersionCode, "10"),
            java_home: find(properties, ConfigKey::JavaHome),
            zpak_path: find_or(properties, ConfigKey::ZpakPath, "resource.zpak"),
            sign_key: find_or(properties, ConfigKey::Keystore, "android.keystore"),
            sign_key_pass: find_or(properties, ConfigKey::KeystorePass, ""),
        }
    }

    pub fn package_name(&self) -> (r: &String)
        ensures
            r@ == self@.package_name,
    {
        &self.package_name
    }

    pub fn version(&self) -> (r: &String)
        ensures
            r@ == self@.version,
    {
        &self.version
    }

    pub fn version_code(&self) -> (r: &String)
        ensures
            r@ == self@.version_code,
    {
        &self.version_code
    }

    pub fn java_home(&self) -> (r: &Option<String>)
        ensures
            opt_text(*r) == self@.java_home,
    {
        &self.java_home
    }

    pub fn zpak_path(&self) -> (r: &String)
        ensures
            r@ == self@.zpak_path,
    {
        &self.zpak_path
    }

    pub fn sign_key(&self) -> (r: &String)
        ensures
            r@ == self@.sign_key,
    {
        &self.sign_key
    }

    pub fn sign_key_pass(&self) -> (r: &String)
        ensures
            r@ == self@.sign_key_pass,
    {
        &self.sign_key_pass
    }

    /// The manifest text `text` with the package identifier, version code,
    /// version name and startup authority of this build.
    pub fn edit_manifest(&self, text: &Vec<u8>) -> (r: Vec<u8>)
        ensures
            r@ == patched(
                text@,
                encode_utf8(self@.package_name),
                encode_utf8(self@.version_code),
                encode_utf8(self@.version),
            ),
    {
        patch_manifest(
            text,
            self.package_name.as_str().as_bytes(),
            self.version_code.as_str().as_bytes(),
            self.version.as_str().as_bytes(),
        )
    }

    /// The Java runtime this build runs, given the toolchain home that the
    /// environment offers, if any.
    pub fn java_command(&self, env_java_home: Option<String>, windows: bool) -> (r: String)
        ensures
            r@ == java_program(self@.java_home, opt_text(env_java_home), windows),
    {
        let home = match &self.java_home {
            Some(h) => Some(h.clone()),
            None => env_java_home,
        };
        match home {
            Some(h) => {
                let mut java = h;
                java.append("/bin/java");
                if windows {
                    java.append(".exe");
                }
                assert(java@ =~= java_under(h@, windows));
                java
            },
            None => "java".to_owned(),
        }
    }

    /// The signing arguments that sign `input` into `output` with this
    /// build's keystore.
    pub fn sign_command(&self, input: String, output: String) -> (r: Vec<String>)
        ensures
            texts(r@) == sign_args(self@.sign_key, self@.sign_key_pass, input@, output@),
    {
        let builder = CommandBuilder::new();
        builder.make_sign_command(self.sign_key.clone(), self.sign_key_pass.clone(), input, output)
    }
}

} // verus!
