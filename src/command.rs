//! Argument lists of the three external tools, and the rendering of a
//! command line for the console.
use vstd::prelude::*;
use vstd::string::StringExecFns;

verus! {

/// The text of each argument of an argument list.
pub open spec fn texts(v: Seq<String>) -> Seq<Seq<char>> {
    v.map_values(|s: String| s@)
}

/// Arguments of the Java runtime that repackage the staging directory
/// `template_dir` into the archive `output`.
pub open spec fn apktool_args(template_dir: Seq<char>, output: Seq<char>) -> Seq<Seq<char>> {
    seq!["-jar"@, "apktool.jar"@, "b"@, template_dir, "-o"@, output]
}

/// Arguments of the Java runtime that sign `input` into `output`, with the
/// same passphrase for the keystore and for the key.
pub open spec fn sign_args(
    keystore_path: Seq<char>,
    keystore_pass: Seq<char>,
    input: Seq<char>,
    output: Seq<char>,
) -> Seq<Seq<char>> {
    seq![
        "-jar"@,
        "apksigner.jar"@,
        "sign"@,
        "--ks"@,
        keystore_path,
        "--ks-pass"@,
        "pass:"@ + keystore_pass,
        "--key-pass"@,
        "pass:"@ + keystore_pass,
        "--out"@,
        output,
        input,
    ]
}

/// Program and arguments that align `input` to 4-byte boundaries into
/// `output`, with the alignment executable at `zipalign`.
pub open spec fn zipalign_args(zipalign: Seq<char>, input: Seq<char>, output: Seq<char>) -> Seq<
    Seq<char>,
> {
    seq![zipalign, "-v"@, "4"@, input, output]
}

/// Location of the alignment executable for the platform `os` under the
/// build tools directory `tools_dir`.
pub open spec fn zipalign_path(tools_dir: Seq<char>, os: Seq<char>) -> Seq<char> {
    tools_dir + "/"@ + os + "/zipalign"@ + if os == "windows"@ {
        ".exe"@
    } else {
        Seq::empty()
    }
}

/// The command line `program` followed by each argument, each after one
/// space.
pub open spec fn command_line(program: Seq<char>, args: Seq<Seq<char>>) -> Seq<char>
    decreases args.len(),
{
    if args.len() == 0 {
        program
    } else {
        command_line(program, args.drop_last()) + " "@ + args.last()
    }
}

/// Two argument lists assembled from the same inputs are identical: each
/// assembly's result is fixed by its inputs alone.
pub proof fn lemma_assembly_deterministic(
    a: Seq<String>,
    b: Seq<String>,
    expected: Seq<Seq<char>>,
)
    requires
        texts(a) == expected,
        texts(b) == expected,
    ensures
        a.len() == b.len(),
        forall|i: int| 0 <= i < a.len() ==> (#[trigger] a[i])@ == b[i]@,
{
    assert(texts(a).len() == a.len());
    assert(texts(b).len() == b.len());
    assert forall|i: int| 0 <= i < a.len() implies (#[trigger] a[i])@ == b[i]@ by {
        assert(texts(a)[i] == a[i]@);
        assert(texts(b)[i] == b[i]@);
    }
}

/// Assembles the argument lists of the external tools. It holds no state.
pub struct CommandBuilder {}

impl CommandBuilder {
    pub fn new() -> (r: Self) {
        CommandBuilder {  }
    }

    /// The arguments that repackage the staging directory, whose absolute
    /// path is `template_dir`, into `output`.
    pub fn make_apktool_command(&self, template_dir: String, output: String) -> (r: Vec<String>)
        ensures
            texts(r@) == apktool_args(template_dir@, output@),
    {
        let mut cmd: Vec<String> = Vec::new();
        cmd.push("-jar".to_owned());
        cmd.push("apktool.jar".to_owned());
        cmd.push("b".to_owned());
        cmd.push(template_dir);
        cmd.push("-o".to_owned());
        cmd.push(output);
        assert(texts(cmd@) =~= apktool_args(template_dir@, output@));
        cmd
    }

    /// The arguments that sign `input` into `output` with the keystore at
    /// `keystore_path`. The passphrase is passed in plain text.
    pub fn make_sign_command(
        &self,
        keystore_path: String,
        keystore_pass: String,
        input: String,
        output: String,
    ) -> (r: Vec<String>)
        ensures
            texts(r@) == sign_args(keystore_path@, keystore_pass@, input@, output@),
    {
        let mut command: Vec<String> = Vec::new();
        command.push("-jar".to_owned());
        command.push("apksigner.jar".to_owned());
        command.push("sign".to_owned());
        command.push("--ks".to_owned());
        command.push(keystore_path);
        command.push("--ks-pass".to_owned());
        command.push("pass:".to_owned().concat(keystore_pass.as_str()));
        command.push("--key-pass".to_owned());
        command.push("pass:".to_owned().concat(keystore_pass.as_str()));
        command.push("--out".to_owned());
        command.push(output);
        command.push(input);
        assert(texts(command@) =~= sign_args(keystore_path@, keystore_pass@, input@, output@));
        command
    }

    /// The alignment command: the executable at `zipalign`, then its
    /// arguments.
    pub fn make_zipalign_command(&self, zipalign: String, input: String, output: String) -> (r: Vec<
        String,
    >)
        ensures
            texts(r@) == zipalign_args(zipalign@, input@, output@),
    {
        let mut command: Vec<String> = Vec::new();
        command.push(zipalign);
        command.push("-v".to_owned());
        command.push("4".to_owned());
        command.push(input);
        command.push(output);
        assert(texts(command@) =~= zipalign_args(zipalign@, input@, output@));
        command
    }

    /// Where the alignment executable lies for the platform `os` under the
    /// build tools directory `tools_dir`.
    pub fn zipalign_binary(&self, tools_dir: &str, os: &str) -> (r: String)
        ensures
            r@ == zipalign_path(tools_dir@, os@),
    {
        let mut path = tools_dir.to_owned();
        path.append("/");
        path.append(os);
        path.append("/zipalign");
        let windows = "windows".to_owned();
        let os_owned = os.to_owned();
        if os_owned == windows {
            path.append(".exe");
        }
        assert(path@ =~= zipalign_path(tools_dir@, os@));
        path
    }
}

/// The command line of `program` with `args`, as the console shows it.
pub fn render_command(program: &str, args: &Vec<String>) -> (r: String)
    ensures
        r@ == command_line(program@, texts(args@)),
{
    let mut line = program.to_owned();
    let mut i: usize = 0;
    while i < args.len()
        invariant
            i <= args@.len(),
            line@ == command_line(program@, texts(args@.subrange(0, i as int))),
        decreases args@.len() - i,
    {
        proof {
            let prev = texts(args@.subrange(0, i as int));
            let next = texts(args@.subrange(0, i + 1));
            assert(next.drop_last() =~= prev);
            assert(next.last() == args@[i as int]@);
        }
        line.append(" ");
        line.append(args[i].as_str());
        i = i + 1;
    }
    assert(args@.subrange(0, i as int) =~= args@);
    line
}

} // verus!
