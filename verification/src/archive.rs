//! Archive operations (7z, tar, pixz): which program runs with which
//! arguments, and what its output means. Running the programs is the
//! caller's part.

use vstd::prelude::*;
use crate::error::{Result, TripleWrapperError};
use crate::text::{chars_of, concat, ends_with, ends_with_str, is_str, owned, push_arg, push_arg2,
    push_each, push_each_prefixed, starts_with, starts_with_str, string_from, string_views,
    trim, trim_str, is_ws};
use crate::types::{ArchiveFormat, EntryModel};

verus! {

// ---------------------------------------------------------------------------
// Commands
// ---------------------------------------------------------------------------

/// A program and its argument list.
pub struct CommandPlan {
    pub program: String,
    pub args: Vec<String>,
}

/// `["-w<dir>"]` when a work directory is given.
pub open spec fn workdir_args(flag: Seq<char>, workdir: Option<Seq<char>>) -> Seq<Seq<char>> {
    match workdir {
        Some(w) => seq![flag + w],
        None => Seq::empty(),
    }
}

/// `["-p<secret>"]` for a non-empty password; nothing otherwise.
pub open spec fn password_args(password: Option<Seq<char>>) -> Seq<Seq<char>> {
    match password {
        Some(p) => if p.len() > 0 {
            seq!["-p"@ + p]
        } else {
            Seq::empty()
        },
        None => Seq::empty(),
    }
}

/// The given strings with `prefix` in front of each.
pub open spec fn prefixed(prefix: Seq<char>, items: Seq<Seq<char>>) -> Seq<Seq<char>> {
    items.map_values(|x: Seq<char>| prefix + x)
}

pub open spec fn opt_strings(items: Option<Seq<String>>) -> Seq<Seq<char>> {
    match items {
        Some(v) => string_views(v),
        None => Seq::empty(),
    }
}

fn push_workdir(args: &mut Vec<String>, flag: &str, workdir: Option<&str>)
    ensures
        string_views(final(args)@) == string_views(old(args)@) + workdir_args(
            flag@,
            crate::text::opt_view(workdir),
        ),
{
    match workdir {
        Some(w) => push_arg2(args, flag, w),
        None => {
            assert(string_views(args@) + Seq::<Seq<char>>::empty() =~= string_views(args@));
        },
    }
}

/// Appends `-p<secret>` for a non-empty password (7z takes no other
/// non-interactive channel).
pub fn push_password_arg(args: &mut Vec<String>, password: Option<&str>)
    ensures
        string_views(final(args)@) == string_views(old(args)@) + password_args(
            crate::text::opt_view(password),
        ),
{
    match password {
        Some(pw) => {
            if !pw.is_empty() {
                push_arg2(args, "-p", pw);
            } else {
                assert(string_views(args@) + Seq::<Seq<char>>::empty() =~= string_views(args@));
            }
        },
        None => {
            assert(string_views(args@) + Seq::<Seq<char>>::empty() =~= string_views(args@));
        },
    }
}

fn push_opt_each(args: &mut Vec<String>, items: Option<&Vec<String>>)
    ensures
        string_views(final(args)@) == string_views(old(args)@) + opt_strings(
            match items {
                Some(v) => Some(v@),
                None => None,
            },
        ),
{
    match items {
        Some(v) => push_each(args, v),
        None => {
            assert(string_views(args@) + Seq::<Seq<char>>::empty() =~= string_views(args@));
        },
    }
}

fn push_opt_each_prefixed(args: &mut Vec<String>, prefix: &str, items: Option<&Vec<String>>)
    ensures
        string_views(final(args)@) == string_views(old(args)@) + prefixed(
            prefix@,
            opt_strings(
                match items {
                    Some(v) => Some(v@),
                    None => None,
                },
            ),
        ),
{
    match items {
        Some(v) => push_each_prefixed(args, prefix, v),
        None => {
            assert(prefixed(prefix@, Seq::<Seq<char>>::empty()) =~= Seq::<Seq<char>>::empty());
            assert(string_views(args@) + Seq::<Seq<char>>::empty() =~= string_views(args@));
        },
    }
}

pub open spec fn opt_vec(o: Option<&Vec<String>>) -> Option<Seq<String>> {
    match o {
        Some(v) => Some(v@),
        None => None,
    }
}

// ---------------------------------------------------------------------------
// Redacted command text
// ---------------------------------------------------------------------------

/// An argument as it may be logged: `-p<anything>` becomes `-p***`.
pub open spec fn redacted(a: Seq<char>) -> Seq<char> {
    if a.len() > 2 && starts_with(a, "-p"@) {
        "-p***"@
    } else {
        a
    }
}

/// The arguments with every password argument redacted.
pub fn redact_args(args: &Vec<String>) -> (r: Vec<String>)
    ensures
        string_views(r@) == string_views(args@).map_values(|a: Seq<char>| redacted(a)),
{
    let mut r: Vec<String> = Vec::new();
    let mut i: usize = 0;
    while i < args.len()
        invariant
            i <= args.len(),
            string_views(r@) == string_views(args@.take(i as int)).map_values(
                |a: Seq<char>| redacted(a),
            ),
        decreases args.len() - i,
    {
        let a = chars_of(args[i].as_str());
        let ghost r0 = r@;
        if a.len() > 2 && starts_with_str(&a, "-p") {
            push_arg(&mut r, "-p***");
        } else {
            push_arg(&mut r, args[i].as_str());
        }
        assert(string_views(args@.take(i + 1)).map_values(|a: Seq<char>| redacted(a))
            =~= string_views(args@.take(i as int)).map_values(|a: Seq<char>| redacted(a)).push(
            redacted(args@[i as int]@),
        ));
        i = i + 1;
    }
    assert(args@.take(args.len() as int) =~= args@);
    r
}

/// Items joined with a single space.
pub open spec fn join_space(items: Seq<Seq<char>>) -> Seq<char>
    decreases items.len(),
{
    if items.len() == 0 {
        Seq::empty()
    } else if items.len() == 1 {
        items[0]
    } else {
        join_space(items.drop_last()) + " "@ + items.last()
    }
}

/// Items joined with `sep`.
pub open spec fn join_with(items: Seq<Seq<char>>, sep: Seq<char>) -> Seq<char>
    decreases items.len(),
{
    if items.len() == 0 {
        Seq::empty()
    } else if items.len() == 1 {
        items[0]
    } else {
        join_with(items.drop_last(), sep) + sep + items.last()
    }
}

/// `items.join(sep)`.
pub fn join_strings(items: &Vec<String>, sep: &str) -> (r: String)
    ensures
        r@ == join_with(string_views(items@), sep@),
{
    let mut v: Vec<char> = Vec::new();
    let mut i: usize = 0;
    while i < items.len()
        invariant
            i <= items.len(),
            v@ == join_with(string_views(items@.take(i as int)), sep@),
        decreases items.len() - i,
    {
        let ghost prev = string_views(items@.take(i as int));
        let ghost next = string_views(items@.take(i + 1));
        assert(next.drop_last() =~= prev);
        if i > 0 {
            crate::text::push_str(&mut v, sep);
        }
        crate::text::push_str(&mut v, items[i].as_str());
        proof {
            if i == 0 {
                assert(v@ =~= next[0]);
            } else {
                assert(next.last() == items@[i as int]@);
            }
        }
        i = i + 1;
    }
    assert(items@.take(items.len() as int) =~= items@);
    string_from(&v)
}

/// The log line for running `plan`, with the password argument hidden:
/// `Running: <program> <redacted args joined by spaces>`.
pub fn command_log_text(plan: &CommandPlan) -> (r: String)
    ensures
        r@ == "Running: "@ + plan.program@ + " "@ + join_with(
            string_views(plan.args@).map_values(|a: Seq<char>| redacted(a)),
            " "@,
        ),
{
    let red = redact_args(&plan.args);
    let joined = join_strings(&red, " ");
    let mut v = chars_of("Running: ");
    crate::text::push_str(&mut v, plan.program.as_str());
    crate::text::push_str(&mut v, " ");
    crate::text::push_str(&mut v, joined.as_str());
    string_from(&v)
}

// ---------------------------------------------------------------------------
// The operator
// ---------------------------------------------------------------------------

/// Archive operator: where the 7z, tar and pixz programs are.
pub struct ArchiveOperator {
    pub sevenz_path: String,
    pub tar_path: String,
    pub pixz_path: String,
}

/// Path of a tool from a `which <name>` run: its trimmed output when the
/// lookup succeeded, `ToolNotFound(name)` otherwise.
pub fn tool_from_lookup(name: &str, found: bool, output: &str) -> (r: Result<String>)
    ensures
        found ==> (r is Ok && r->Ok_0@ == trim(output@)),
        !found ==> (r is Err && r->Err_0 is ToolNotFound && r->Err_0->ToolNotFound_0@ == name@),
{
    if !found {
        return Err(TripleWrapperError::ToolNotFound(owned(name)));
    }
    let t = trim_str(output);
    Ok(string_from(&t))
}

/// Fails with an actionable message when a tool is missing.
pub fn require_tool(present: bool, name: &str) -> (r: Result<()>)
    ensures
        present ==> r is Ok,
        !present ==> (r is Err && r->Err_0 is ToolNotFound && r->Err_0->ToolNotFound_0@ == name@
            + " binary not found: install the '"@ + name@ + "' package, or use .tar.xz instead"@),
{
    if present {
        Ok(())
    } else {
        let mut v = chars_of(name);
        crate::text::push_str(&mut v, " binary not found: install the '");
        crate::text::push_str(&mut v, name);
        crate::text::push_str(&mut v, "' package, or use .tar.xz instead");
        Err(TripleWrapperError::ToolNotFound(string_from(&v)))
    }
}

/// How a listing is obtained for a format.
pub enum ListPlan {
    /// `7z l -slt -ba`: parse with [`parse_7z_listing`].
    SevenZ(CommandPlan),
    /// `tar -tvf`: parse with [`parse_tar_listing`].
    Tar(CommandPlan),
    /// Delegate to the plugin with this id.
    Plugin(String),
}

/// How an extraction runs for a format.
pub enum ExtractPlan {
    Run(CommandPlan),
    /// Delegate to the plugin with this id.
    Plugin(String),
}

pub open spec fn is_sevenz_family(f: ArchiveFormat) -> bool {
    f is SevenZ || f is Zip || f is Rar
}

pub open spec fn is_tar_family(f: ArchiveFormat) -> bool {
    f is Tar || f is TarGz || f is TarXz || f is TarZst || f is TarBz2
}

impl ArchiveOperator {
    pub open spec fn sevenz(&self) -> Seq<char> {
        self.sevenz_path@
    }

    /// An operator from tool lookups: 7z and tar are required (7z is looked
    /// at first); pixz falls back to the bare name `pixz`.
    pub fn new(sevenz: Result<String>, tar: Result<String>, pixz: Result<String>) -> (r: Result<Self>)
        ensures
            match r {
                Ok(op) => {
                    &&& sevenz is Ok && op.sevenz_path == sevenz->Ok_0
                    &&& tar is Ok && op.tar_path == tar->Ok_0
                    &&& op.pixz_path@ == (match pixz {
                        Ok(p) => p@,
                        Err(_) => "pixz"@,
                    })
                },
                Err(e) => (sevenz is Err && e == sevenz->Err_0) || (sevenz is Ok && tar is Err
                    && e == tar->Err_0),
            },
    {
        let sevenz_path = match sevenz {
            Ok(p) => p,
            Err(e) => return Err(e),
        };
        let tar_path = match tar {
            Ok(p) => p,
            Err(e) => return Err(e),
        };
        let pixz_path = match pixz {
            Ok(p) => p,
            Err(_) => owned("pixz"),
        };
        Ok(ArchiveOperator { sevenz_path, tar_path, pixz_path })
    }

    /// Listing command for `format`: 7z family via `7z l -slt -ba <archive>`
    /// (plus the password), tar family and pixz via `tar -tvf <archive>`,
    /// plugin formats via their plugin.
    pub fn list_plan(&self, format: &ArchiveFormat, archive: &str, password: Option<&str>) -> (r:
        ListPlan)
        ensures
            is_sevenz_family(*format) ==> (r is SevenZ && r->SevenZ_0.program == self.sevenz_path
                && string_views(r->SevenZ_0.args@) == seq!["l"@, "-slt"@, "-ba"@, archive@]
                + password_args(crate::text::opt_view(password))),
            (is_tar_family(*format) || format is Pixz) ==> (r is Tar && r->Tar_0.program
                == self.tar_path && string_views(r->Tar_0.args@) == seq!["-tvf"@, archive@]),
            format is External ==> (r is Plugin && r->Plugin_0@ == format->External_0@),
    {
        match format {
            ArchiveFormat::SevenZ | ArchiveFormat::Zip | ArchiveFormat::Rar => {
                let mut args: Vec<String> = Vec::new();
                push_arg(&mut args, "l");
                push_arg(&mut args, "-slt");
                push_arg(&mut args, "-ba");
                push_arg(&mut args, archive);
                push_password_arg(&mut args, password);
                ListPlan::SevenZ(CommandPlan { program: self.sevenz_path.clone(), args })
            },
            ArchiveFormat::External(id) => ListPlan::Plugin(id.clone()),
            _ => {
                let mut args: Vec<String> = Vec::new();
                push_arg(&mut args, "-tvf");
                push_arg(&mut args, archive);
                ListPlan::Tar(CommandPlan { program: self.tar_path.clone(), args })
            },
        }
    }

    /// The encryption probe: `7z l -slt -ba <archive>` without a password.
    pub fn encryption_probe_plan(&self, archive: &str) -> (r: CommandPlan)
        ensures
            r.program == self.sevenz_path,
            string_views(r.args@) == seq!["l"@, "-slt"@, "-ba"@, archive@],
    {
        let mut args: Vec<String> = Vec::new();
        push_arg(&mut args, "l");
        push_arg(&mut args, "-slt");
        push_arg(&mut args, "-ba");
        push_arg(&mut args, archive);
        CommandPlan { program: self.sevenz_path.clone(), args }
    }

    /// Extraction command for `format`.
    ///
    /// * 7z family: `7z x -y [-w<workdir>] [-p<pw>] <archive> -o<out> <files…> -x!<excluded>…`
    /// * tar family: `tar -xf <archive> -C<out> --exclude=<excluded>… <files…>`
    /// * pixz: `pixz -d -k [-t<workdir>] <archive>`, refused when pixz is missing
    /// * plugin formats: their plugin.
    pub fn extract_plan(
        &self,
        format: &ArchiveFormat,
        archive: &str,
        output_dir: &str,
        files: Option<&Vec<String>>,
        workdir: Option<&str>,
        password: Option<&str>,
        exclude: Option<&Vec<String>>,
        pixz_present: bool,
    ) -> (r: Result<ExtractPlan>)
        ensures
            is_sevenz_family(*format) ==> (r is Ok && r->Ok_0 is Run && r->Ok_0->Run_0.program
                == self.sevenz_path && string_views(r->Ok_0->Run_0.args@) == seq!["x"@, "-y"@]
                + workdir_args("-w"@, crate::text::opt_view(workdir)) + password_args(
                crate::text::opt_view(password),
            ) + seq![archive@, "-o"@ + output_dir@] + opt_strings(opt_vec(files)) + prefixed(
                "-x!"@,
                opt_strings(opt_vec(exclude)),
            )),
            is_tar_family(*format) ==> (r is Ok && r->Ok_0 is Run && r->Ok_0->Run_0.program
                == self.tar_path && string_views(r->Ok_0->Run_0.args@) == seq![
                "-xf"@,
                archive@,
                "-C"@ + output_dir@,
            ] + prefixed("--exclude="@, opt_strings(opt_vec(exclude))) + opt_strings(
                opt_vec(files),
            )),
            (format is Pixz && pixz_present) ==> (r is Ok && r->Ok_0 is Run
                && r->Ok_0->Run_0.program == self.pixz_path && string_views(
                r->Ok_0->Run_0.args@,
            ) == seq!["-d"@, "-k"@] + workdir_args("-t"@, crate::text::opt_view(workdir))
                + seq![archive@]),
            (format is Pixz && !pixz_present) ==> (r is Err && r->Err_0 is ToolNotFound
                && r->Err_0->ToolNotFound_0@ == "pixz binary not found: install the 'pixz' package, or use .tar.xz instead"@),
            format is External ==> (r is Ok && r->Ok_0 is Plugin && r->Ok_0->Plugin_0@
                == format->External_0@),
    {
        match format {
            ArchiveFormat::SevenZ | ArchiveFormat::Zip | ArchiveFormat::Rar => {
                let mut args: Vec<String> = Vec::new();
                push_arg(&mut args, "x");
                push_arg(&mut args, "-y");
                push_workdir(&mut args, "-w", workdir);
                push_password_arg(&mut args, password);
                push_arg(&mut args, archive);
                push_arg2(&mut args, "-o", output_dir);
                push_opt_each(&mut args, files);
                push_opt_each_prefixed(&mut args, "-x!", exclude);
                Ok(ExtractPlan::Run(CommandPlan { program: self.sevenz_path.clone(), args }))
            },
            ArchiveFormat::Pixz => {
                if !pixz_present {
                    let e = require_tool(false, "pixz");
                    proof {
                        reveal_strlit("pixz");
                        reveal_strlit(" binary not found: install the '");
                        reveal_strlit("' package, or use .tar.xz instead");
                        reveal_strlit("pixz binary not found: install the 'pixz' package, or use .tar.xz instead");
                        assert("pixz"@ + " binary not found: install the '"@ + "pixz"@
                            + "' package, or use .tar.xz instead"@
                            =~= "pixz binary not found: install the 'pixz' package, or use .tar.xz instead"@);
                    }
                    return match e {
                        Err(err) => Err(err),
                        Ok(()) => Err(TripleWrapperError::Cancelled),
                    };
                }
                let mut args: Vec<String> = Vec::new();
                push_arg(&mut args, "-d");
                push_arg(&mut args, "-k");
                push_workdir(&mut args, "-t", workdir);
                push_arg(&mut args, archive);
                Ok(ExtractPlan::Run(CommandPlan { program: self.pixz_path.clone(), args }))
            },
            ArchiveFormat::External(id) => Ok(ExtractPlan::Plugin(id.clone())),
            _ => {
                let mut args: Vec<String> = Vec::new();
                push_arg(&mut args, "-xf");
                push_arg(&mut args, archive);
                push_arg2(&mut args, "-C", output_dir);
                push_opt_each_prefixed(&mut args, "--exclude=", exclude);
                push_opt_each(&mut args, files);
                Ok(ExtractPlan::Run(CommandPlan { program: self.tar_path.clone(), args }))
            },
        }
    }

    /// Command that creates `archive` from `files`, or appends to it.
    ///
    /// * 7z: `7z a -mx<level> [-w<workdir>] [-p<pw> -mhe=on] <archive> <files…>`
    /// * zip: `7z a -tzip -mx<level> [-w<workdir>] [-p<pw>] <archive> <files…>`
    /// * tar family: `tar <-cf|-czf|-cJf|-cjf> <archive> <files…>`, zstd as
    ///   `tar -c --zstd -f <archive> <files…>`
    /// * pixz, rar and plugin formats cannot be appended to.
    pub fn add_plan(
        &self,
        format: &ArchiveFormat,
        archive: &str,
        files: &Vec<String>,
        compression_level: u8,
        workdir: Option<&str>,
        password: Option<&str>,
    ) -> (r: Result<CommandPlan>)
        ensures
            format is SevenZ ==> (r is Ok && r->Ok_0.program == self.sevenz_path && string_views(
                r->Ok_0.args@,
            ) == seq!["a"@, "-mx"@ + crate::text::dec_chars(compression_level as nat)]
                + workdir_args("-w"@, crate::text::opt_view(workdir)) + password_args(
                crate::text::opt_view(password),
            ) + password_args(crate::text::opt_view(password)).map_values(
                |a: Seq<char>| "-mhe=on"@,
            ) + seq![archive@] + string_views(files@)),
            format is Zip ==> (r is Ok && r->Ok_0.program == self.sevenz_path && string_views(
                r->Ok_0.args@,
            ) == seq!["a"@, "-tzip"@, "-mx"@ + crate::text::dec_chars(compression_level as nat)]
                + workdir_args("-w"@, crate::text::opt_view(workdir)) + password_args(
                crate::text::opt_view(password),
            ) + seq![archive@] + string_views(files@)),
            format is Tar ==> (r is Ok && r->Ok_0.program == self.tar_path && string_views(
                r->Ok_0.args@,
            ) == seq!["-cf"@, archive@] + string_views(files@)),
            format is TarGz ==> (r is Ok && r->Ok_0.program == self.tar_path && string_views(
                r->Ok_0.args@,
            ) == seq!["-czf"@, archive@] + string_views(files@)),
            format is TarXz ==> (r is Ok && r->Ok_0.program == self.tar_path && string_views(
                r->Ok_0.args@,
            ) == seq!["-cJf"@, archive@] + string_views(files@)),
            format is TarZst ==> (r is Ok && r->Ok_0.program == self.tar_path && string_views(
                r->Ok_0.args@,
            ) == seq!["-c"@, "--zstd"@, "-f"@, archive@] + string_views(files@)),
            format is TarBz2 ==> (r is Ok && r->Ok_0.program == self.tar_path && string_views(
                r->Ok_0.args@,
            ) == seq!["-cjf"@, archive@] + string_views(files@)),
            format is Pixz ==> (r is Err && r->Err_0 is InvalidFormat
                && r->Err_0->InvalidFormat_0@ == "Pixz doesn't support incremental add"@),
            format is Rar ==> (r is Err && r->Err_0 is InvalidFormat
                && r->Err_0->InvalidFormat_0@ == "RAR archives are read-only"@),
            format is External ==> (r is Err && r->Err_0 is InvalidFormat
                && r->Err_0->InvalidFormat_0@ == "plugin "@ + format->External_0@
                + " does not support adding files"@),
    {
        match format {
            ArchiveFormat::SevenZ => {
                let mut args: Vec<String> = Vec::new();
                push_arg(&mut args, "a");
                let lvl = crate::text::u64_to_string(compression_level as u64);
                push_arg2(&mut args, "-mx", lvl.as_str());
                push_workdir(&mut args, "-w", workdir);
                let ghost before_pw = string_views(args@);
                push_password_arg(&mut args, password);
                let with_pw = match password {
                    Some(p) => !p.is_empty(),
                    None => false,
                };
                let ghost pa = password_args(crate::text::opt_view(password));
                if with_pw {
                    push_arg(&mut args, "-mhe=on");
                    assert(pa.map_values(|a: Seq<char>| "-mhe=on"@) =~= seq!["-mhe=on"@]);
                } else {
                    assert(pa.map_values(|a: Seq<char>| "-mhe=on"@) =~= Seq::<Seq<char>>::empty());
                    assert(string_views(args@) + Seq::<Seq<char>>::empty() =~= string_views(args@));
                }
                push_arg(&mut args, archive);
                push_each(&mut args, files);
                Ok(CommandPlan { program: self.sevenz_path.clone(), args })
            },
            ArchiveFormat::Zip => {
                let mut args: Vec<String> = Vec::new();
                push_arg(&mut args, "a");
                push_arg(&mut args, "-tzip");
                let lvl = crate::text::u64_to_string(compression_level as u64);
                push_arg2(&mut args, "-mx", lvl.as_str());
                push_workdir(&mut args, "-w", workdir);
                push_password_arg(&mut args, password);
                push_arg(&mut args, archive);
                push_each(&mut args, files);
                Ok(CommandPlan { program: self.sevenz_path.clone(), args })
            },
            ArchiveFormat::Tar => Ok(self.tar_create("-cf", archive, files)),
            ArchiveFormat::TarGz => Ok(self.tar_create("-czf", archive, files)),
            ArchiveFormat::TarXz => Ok(self.tar_create("-cJf", archive, files)),
            ArchiveFormat::TarBz2 => Ok(self.tar_create("-cjf", archive, files)),
            ArchiveFormat::TarZst => {
                let mut args: Vec<String> = Vec::new();
                push_arg(&mut args, "-c");
                push_arg(&mut args, "--zstd");
                push_arg(&mut args, "-f");
                push_arg(&mut args, archive);
                push_each(&mut args, files);
                Ok(CommandPlan { program: self.tar_path.clone(), args })
            },
            ArchiveFormat::Pixz => Err(
                TripleWrapperError::InvalidFormat(owned("Pixz doesn't support incremental add")),
            ),
            ArchiveFormat::Rar => Err(
                TripleWrapperError::InvalidFormat(owned("RAR archives are read-only")),
            ),
            ArchiveFormat::External(id) => {
                let mut v = chars_of("plugin ");
                crate::text::push_str(&mut v, id.as_str());
                crate::text::push_str(&mut v, " does not support adding files");
                Err(TripleWrapperError::InvalidFormat(string_from(&v)))
            },
        }
    }

    fn tar_create(&self, flag: &str, archive: &str, files: &Vec<String>) -> (r: CommandPlan)
        ensures
            r.program == self.tar_path,
            string_views(r.args@) == seq![flag@, archive@] + string_views(files@),
    {
        let mut args: Vec<String> = Vec::new();
        push_arg(&mut args, flag);
        push_arg(&mut args, archive);
        push_each(&mut args, files);
        CommandPlan { program: self.tar_path.clone(), args }
    }

    /// Command deleting entries: `7z d [-w<workdir>] [-p<pw>] <archive> <files…>`,
    /// for 7z and zip archives only.
    pub fn delete_plan(
        &self,
        format: &ArchiveFormat,
        archive: &str,
        files: &Vec<String>,
        workdir: Option<&str>,
        password: Option<&str>,
    ) -> (r: Result<CommandPlan>)
        ensures
            (format is SevenZ || format is Zip) ==> (r is Ok && r->Ok_0.program == self.sevenz_path
                && string_views(r->Ok_0.args@) == seq!["d"@] + workdir_args(
                "-w"@,
                crate::text::opt_view(workdir),
            ) + password_args(crate::text::opt_view(password)) + seq![archive@] + string_views(
                files@,
            )),
            !(format is SevenZ || format is Zip) ==> (r is Err && r->Err_0 is InvalidFormat
                && r->Err_0->InvalidFormat_0@ == "Delete only supported for 7z/zip"@),
    {
        match format {
            ArchiveFormat::SevenZ | ArchiveFormat::Zip => {
                let mut args: Vec<String> = Vec::new();
                push_arg(&mut args, "d");
                push_workdir(&mut args, "-w", workdir);
                push_password_arg(&mut args, password);
                push_arg(&mut args, archive);
                push_each(&mut args, files);
                Ok(CommandPlan { program: self.sevenz_path.clone(), args })
            },
            _ => Err(TripleWrapperError::InvalidFormat(owned("Delete only supported for 7z/zip"))),
        }
    }

    /// Integrity test: `7z t <archive> [-p<pw>]` for 7z and zip,
    /// `tar -tf <archive>` for every other format.
    pub fn test_plan(&self, format: &ArchiveFormat, archive: &str, password: Option<&str>) -> (r:
        CommandPlan)
        ensures
            (format is SevenZ || format is Zip) ==> (r.program == self.sevenz_path && string_views(
                r.args@,
            ) == seq!["t"@, archive@] + password_args(crate::text::opt_view(password))),
            !(format is SevenZ || format is Zip) ==> (r.program == self.tar_path && string_views(
                r.args@,
            ) == seq!["-tf"@, archive@]),
    {
        match format {
            ArchiveFormat::SevenZ | ArchiveFormat::Zip => {
                let mut args: Vec<String> = Vec::new();
                push_arg(&mut args, "t");
                push_arg(&mut args, archive);
                push_password_arg(&mut args, password);
                CommandPlan { program: self.sevenz_path.clone(), args }
            },
            _ => {
                let mut args: Vec<String> = Vec::new();
                push_arg(&mut args, "-tf");
                push_arg(&mut args, archive);
                CommandPlan { program: self.tar_path.clone(), args }
            },
        }
    }
}

} // verus!

verus! {

// ---------------------------------------------------------------------------
// `7z l -slt` listings
// ---------------------------------------------------------------------------

/// Format of the `Modified` field of 7z technical listings.
pub const SEVENZ_TIME_FORMAT: &'static str = "%Y-%m-%d %H:%M:%S";

/// Seconds since the Unix epoch of the date `text` read with the chrono
/// format `format` (requiring a time-zone offset), as chrono computes it.
pub uninterp spec fn parsed_timestamp(text: Seq<char>, format: Seq<char>) -> Option<i64>;

/// `chrono::DateTime::parse_from_str(text, format)`, taken as a Unix
/// timestamp; `None` when chrono rejects the text.
#[verifier::external_body]
fn parse_timestamp(text: &str, format: &str) -> (r: Option<i64>)
    ensures
        r == parsed_timestamp(text@, format@),
{
    chrono::DateTime::parse_from_str(text, format).ok().map(|dt| dt.timestamp())
}

/// Parser state while reading a 7z technical listing.
pub struct SevenZListing {
    pub entries: Seq<EntryModel>,
    pub current: Option<EntryModel>,
    pub encrypted: bool,
}

/// Entries with the pending one (if any) appended.
pub open spec fn flushed(st: SevenZListing) -> Seq<EntryModel> {
    match st.current {
        Some(e) => st.entries.push(e),
        None => st.entries,
    }
}

/// A fresh entry for `Path = <path>`.
pub open spec fn entry_for_path(path: Seq<char>) -> EntryModel {
    EntryModel {
        path,
        size: 0,
        compressed_size: 0,
        modified: None,
        is_directory: ends_with(path, "/"@),
        crc32: None,
        sha256: None,
    }
}

/// `value` as a decimal size, 0 when it does not parse.
pub open spec fn size_or_zero(value: Seq<char>) -> u64 {
    match crate::text::parse_u64(value) {
        Some(n) => n,
        None => 0,
    }
}

/// Effect of one `key = value` pair on the pending entry.
pub open spec fn apply_field(e: EntryModel, key: Seq<char>, value: Seq<char>) -> EntryModel {
    if key == "Size"@ {
        EntryModel { size: size_or_zero(value), ..e }
    } else if key == "Packed Size"@ {
        EntryModel { compressed_size: size_or_zero(value), ..e }
    } else if key == "Modified"@ {
        EntryModel { modified: parsed_timestamp(value, SEVENZ_TIME_FORMAT@), ..e }
    } else if key == "CRC"@ {
        EntryModel { crc32: crate::text::parse_hex_u32(value), ..e }
    } else {
        e
    }
}

/// Effect of one listing line. A `----------` line closes the pending
/// entry; `Path = p` starts a new one; `Encrypted = +` marks the archive
/// encrypted; `Size`, `Packed Size`, `Modified` and `CRC` fill the pending
/// entry (keys and values trimmed); anything else is ignored.
pub open spec fn listing_step(st: SevenZListing, line: Seq<char>) -> SevenZListing {
    if starts_with(line, "----------"@) {
        SevenZListing { entries: flushed(st), current: None, encrypted: st.encrypted }
    } else {
        match crate::text::split_once(line, '=') {
            None => st,
            Some((k, v)) => {
                let key = trim(k);
                let value = trim(v);
                if key == "Encrypted"@ {
                    if value == "+"@ {
                        SevenZListing { encrypted: true, ..st }
                    } else {
                        st
                    }
                } else if key == "Path"@ {
                    SevenZListing {
                        entries: flushed(st),
                        current: Some(entry_for_path(value)),
                        encrypted: st.encrypted,
                    }
                } else {
                    match st.current {
                        Some(e) => SevenZListing { current: Some(apply_field(e, key, value)), ..st },
                        None => st,
                    }
                }
            },
        }
    }
}

/// State after reading `lines` in order.
pub open spec fn listing_after(lines: Seq<Seq<char>>) -> SevenZListing
    decreases lines.len(),
{
    if lines.len() == 0 {
        SevenZListing { entries: Seq::empty(), current: None, encrypted: false }
    } else {
        listing_step(listing_after(lines.drop_last()), lines.last())
    }
}

/// Views of a list of entries.
pub open spec fn entry_views(v: Seq<crate::types::ArchiveEntry>) -> Seq<EntryModel> {
    v.map_values(|e: crate::types::ArchiveEntry| e@)
}

fn new_entry(path: Vec<char>) -> (e: crate::types::ArchiveEntry)
    ensures
        e@ == entry_for_path(path@),
{
    let dir = ends_with_str(&path, "/");
    crate::types::ArchiveEntry {
        path: string_from(&path),
        size: 0,
        compressed_size: 0,
        modified: None,
        is_directory: dir,
        crc32: None,
        sha256: None,
    }
}

fn apply_field_exec(e: &mut crate::types::ArchiveEntry, key: &Vec<char>, value: &Vec<char>)
    ensures
        final(e)@ == apply_field(old(e)@, key@, value@),
{
    if is_str(key, "Size") {
        e.size = match crate::text::parse_u64_exec(value) {
            Some(n) => n,
            None => 0,
        };
    } else if is_str(key, "Packed Size") {
        e.compressed_size = match crate::text::parse_u64_exec(value) {
            Some(n) => n,
            None => 0,
        };
    } else if is_str(key, "Modified") {
        let t = string_from(value);
        e.modified = parse_timestamp(t.as_str(), SEVENZ_TIME_FORMAT);
    } else if is_str(key, "CRC") {
        e.crc32 = crate::text::parse_hex_u32_exec(value);
    }
}

/// Reads the lines of `7z l -slt -ba`: the entries, and whether any entry
/// is encrypted.
pub fn parse_7z_listing(lines: &Vec<String>) -> (r: (Vec<crate::types::ArchiveEntry>, bool))
    ensures
        entry_views(r.0@) == flushed(listing_after(string_views(lines@))),
        r.1 == listing_after(string_views(lines@)).encrypted,
{
    let mut entries: Vec<crate::types::ArchiveEntry> = Vec::new();
    let mut current: Option<crate::types::ArchiveEntry> = None;
    let mut encrypted = false;
    let mut i: usize = 0;
    while i < lines.len()
        invariant
            i <= lines.len(),
            ({
                let st = listing_after(string_views(lines@.take(i as int)));
                &&& entry_views(entries@) == st.entries
                &&& match current {
                    Some(e) => st.current == Some(e@),
                    None => st.current is None,
                }
                &&& encrypted == st.encrypted
            }),
        decreases lines.len() - i,
    {
        let ghost prev = string_views(lines@.take(i as int));
        let ghost next = string_views(lines@.take(i + 1));
        assert(next.drop_last() =~= prev);
        assert(next.last() == lines@[i as int]@);
        let ghost st0 = listing_after(prev);
        let line = chars_of(lines[i].as_str());
        if starts_with_str(&line, "----------") {
            let ghost ents0 = entries@;
            match current {
                Some(e) => {
                    entries.push(e);
                    assert(entry_views(entries@) =~= entry_views(ents0).push(e@));
                },
                None => {},
            }
            current = None;
        } else {
            match crate::text::split_once_exec(&line, '=') {
                None => {},
                Some((k, v)) => {
                    let key = crate::text::trim_exec(&k);
                    let value = crate::text::trim_exec(&v);
                    if is_str(&key, "Encrypted") {
                        if is_str(&value, "+") {
                            encrypted = true;
                        }
                    } else if is_str(&key, "Path") {
                        let ghost ents0 = entries@;
                        match current {
                            Some(e) => {
                                entries.push(e);
                                assert(entry_views(entries@) =~= entry_views(ents0).push(e@));
                            },
                            None => {},
                        }
                        current = Some(new_entry(value));
                    } else {
                        match current {
                            Some(mut e) => {
                                apply_field_exec(&mut e, &key, &value);
                                current = Some(e);
                            },
                            None => {
                                current = None;
                            },
                        }
                    }
                },
            }
        }
        i = i + 1;
    }
    assert(lines@.take(lines.len() as int) =~= lines@);
    let ghost ents0 = entries@;
    match current {
        Some(e) => {
            entries.push(e);
            assert(entry_views(entries@) =~= entry_views(ents0).push(e@));
        },
        None => {},
    }
    (entries, encrypted)
}

// ---------------------------------------------------------------------------
// `tar -tv` listings
// ---------------------------------------------------------------------------

/// The entry a `tar -tv` line describes: GNU columns are
/// `perms owner SIZE date time name…`; lines with fewer than six columns
/// describe nothing. The name is the sixth and later columns joined by one
/// space; directories start with `d` or end with `/`.
pub open spec fn tar_line_entry(line: Seq<char>) -> Option<EntryModel> {
    let w = crate::text::words(line);
    if w.len() >= 6 {
        let path = join_with(w.skip(5), " "@);
        Some(
            EntryModel {
                path,
                size: size_or_zero(w[2]),
                compressed_size: 0,
                modified: None,
                is_directory: starts_with(w[0], "d"@) || ends_with(path, "/"@),
                crc32: None,
                sha256: None,
            },
        )
    } else {
        None
    }
}

/// The entries described by `lines`, in order.
pub open spec fn tar_entries(lines: Seq<Seq<char>>) -> Seq<EntryModel>
    decreases lines.len(),
{
    if lines.len() == 0 {
        Seq::empty()
    } else {
        let rest = tar_entries(lines.drop_last());
        match tar_line_entry(lines.last()) {
            Some(e) => rest.push(e),
            None => rest,
        }
    }
}

fn join_chars(items: &Vec<Vec<char>>, from: usize, sep: &str) -> (r: Vec<char>)
    requires
        from <= items@.len(),
    ensures
        r@ == join_with(items@.skip(from as int).map_values(|x: Vec<char>| x@), sep@),
{
    let mut v: Vec<char> = Vec::new();
    let mut i = from;
    while i < items.len()
        invariant
            from <= i <= items.len(),
            v@ == join_with(items@.subrange(from as int, i as int).map_values(|x: Vec<char>| x@), sep@),
        decreases items.len() - i,
    {
        let ghost prev = items@.subrange(from as int, i as int).map_values(|x: Vec<char>| x@);
        let ghost next = items@.subrange(from as int, i + 1).map_values(|x: Vec<char>| x@);
        assert(next.drop_last() =~= prev);
        if i > from {
            crate::text::push_str(&mut v, sep);
        }
        crate::text::push_all(&mut v, &items[i]);
        proof {
            if i == from {
                assert(v@ =~= next[0]);
            } else {
                assert(next.last() == items@[i as int]@);
            }
        }
        i = i + 1;
    }
    assert(items@.subrange(from as int, items.len() as int) =~= items@.skip(from as int));
    v
}

/// Reads the lines of `tar -tvf`.
pub fn parse_tar_listing(lines: &Vec<String>) -> (r: Vec<crate::types::ArchiveEntry>)
    ensures
        entry_views(r@) == tar_entries(string_views(lines@)),
{
    let mut entries: Vec<crate::types::ArchiveEntry> = Vec::new();
    let mut i: usize = 0;
    while i < lines.len()
        invariant
            i <= lines.len(),
            entry_views(entries@) == tar_entries(string_views(lines@.take(i as int))),
        decreases lines.len() - i,
    {
        let ghost prev = string_views(lines@.take(i as int));
        let ghost next = string_views(lines@.take(i + 1));
        assert(next.drop_last() =~= prev);
        assert(next.last() == lines@[i as int]@);
        let line = chars_of(lines[i].as_str());
        let parts = crate::text::split_words(&line);
        let ghost w = crate::text::words(line@);
        assert(parts@.map_values(|x: Vec<char>| x@) =~= w);
        if parts.len() >= 6 {
            let size = match crate::text::parse_u64_exec(&parts[2]) {
                Some(n) => n,
                None => 0,
            };
            let path = join_chars(&parts, 5, " ");
            assert(parts@.skip(5).map_values(|x: Vec<char>| x@) =~= w.skip(5));
            let is_dir = starts_with_str(&parts[0], "d") || ends_with_str(&path, "/");
            let e = crate::types::ArchiveEntry {
                path: string_from(&path),
                size,
                compressed_size: 0,
                modified: None,
                is_directory: is_dir,
                crc32: None,
                sha256: None,
            };
            let ghost ents0 = entries@;
            entries.push(e);
            assert(entry_views(entries@) =~= entry_views(ents0).push(e@));
        }
        i = i + 1;
    }
    assert(lines@.take(lines.len() as int) =~= lines@);
    entries
}

// ---------------------------------------------------------------------------
// Progress and failure output
// ---------------------------------------------------------------------------

/// First word that parses as a number above 1000.
pub open spec fn first_large_number(ws: Seq<Seq<char>>) -> Option<u64>
    decreases ws.len(),
{
    if ws.len() == 0 {
        None
    } else {
        match crate::text::parse_u64(ws[0]) {
            Some(n) => if n > 1000 {
                Some(n)
            } else {
                first_large_number(ws.drop_first())
            },
            None => first_large_number(ws.drop_first()),
        }
    }
}

/// Bytes reported by a 7z progress line: on lines mentioning
/// `Compressing` or `Extracting`, the first word that is a number above 1000.
pub open spec fn progress_bytes(line: Seq<char>) -> Option<u64> {
    if crate::text::contains(line, "Compressing"@) || crate::text::contains(line, "Extracting"@) {
        first_large_number(crate::text::words(line))
    } else {
        None
    }
}

/// Bytes reported by a 7z progress line, if any.
pub fn parse_7z_progress(line: &str) -> (r: Option<u64>)
    ensures
        r == progress_bytes(line@),
{
    let v = chars_of(line);
    if !(crate::text::contains_str(&v, "Compressing") || crate::text::contains_str(&v, "Extracting")) {
        return None;
    }
    let parts = crate::text::split_words(&v);
    let ghost w = crate::text::words(v@);
    assert(parts@.map_values(|x: Vec<char>| x@) =~= w);
    assert(w.skip(0) =~= w);
    assert(progress_bytes(line@) == first_large_number(w));
    let mut i: usize = 0;
    while i < parts.len()
        invariant
            progress_bytes(line@) == first_large_number(w),
            i <= parts@.len(),
            w.len() == parts@.len(),
            forall|k: int| 0 <= k < parts@.len() ==> (#[trigger] parts@[k])@ == w[k],
            first_large_number(w) == first_large_number(w.skip(i as int)),
        decreases parts.len() - i,
    {
        assert(w.skip(i as int)[0] == w[i as int]);
        assert(w.skip(i as int).drop_first() =~= w.skip(i + 1));
        match crate::text::parse_u64_exec(&parts[i]) {
            Some(n) => {
                if n > 1000 {
                    return Some(n);
                }
            },
            None => {},
        }
        i = i + 1;
    }
    assert(w.skip(i as int).len() == 0);
    None
}

/// Whether a probe's output shows encryption: some stdout line reads
/// `Encrypted = +` once trimmed, or stdout followed by stderr mentions a
/// password prompt or a wrong password.
pub open spec fn encryption_evident(stdout: Seq<char>, stderr: Seq<char>) -> bool {
    ||| exists|i: int|
        0 <= i < crate::text::lines(stdout).len() && trim(crate::text::lines(stdout)[i])
            == "Encrypted = +"@
    ||| crate::text::contains(stdout + stderr, "Enter password"@)
    ||| crate::text::contains(stdout + stderr, "Wrong password"@)
}

/// Reads the output of the encryption probe.
pub fn detect_encryption(stdout: &str, stderr: &str) -> (r: bool)
    ensures
        r == encryption_evident(stdout@, stderr@),
{
    let out = chars_of(stdout);
    let ls = crate::text::split_lines(&out);
    let mut i: usize = 0;
    while i < ls.len()
        invariant
            i <= ls@.len(),
            out@ == stdout@,
            ls@.len() == crate::text::lines(stdout@).len(),
            forall|k: int| 0 <= k < ls@.len() ==> (#[trigger] ls@[k])@ == crate::text::lines(stdout@)[k],
            forall|k: int| 0 <= k < i ==> trim(#[trigger] crate::text::lines(stdout@)[k]) != "Encrypted = +"@,
        decreases ls.len() - i,
    {
        let t = crate::text::trim_exec(&ls[i]);
        if is_str(&t, "Encrypted = +") {
            return true;
        }
        i = i + 1;
    }
    let mut both = chars_of(stdout);
    crate::text::push_str(&mut both, stderr);
    crate::text::contains_str(&both, "Enter password") || crate::text::contains_str(&both, "Wrong password")
}

/// Number of trailing stderr lines kept for failure reports.
pub const ERROR_TAIL_LINES: usize = 5;

/// Follows a running extraction's stderr: the last reported byte count and
/// the last lines seen.
pub struct ExtractMonitor {
    pub bytes_written: u64,
    pub err_tail: Vec<String>,
}

/// The last lines kept after seeing `lines`: at most five, in order.
pub open spec fn tail_after(lines: Seq<Seq<char>>) -> Seq<Seq<char>>
    decreases lines.len(),
{
    if lines.len() == 0 {
        Seq::empty()
    } else {
        let t = tail_after(lines.drop_last());
        let t = if t.len() >= 5 {
            t.drop_first()
        } else {
            t
        };
        t.push(lines.last())
    }
}

impl ExtractMonitor {
    pub fn new() -> (m: Self)
        ensures
            m.bytes_written == 0,
            m.err_tail@.len() == 0,
    {
        ExtractMonitor { bytes_written: 0, err_tail: Vec::new() }
    }

    /// Takes one stderr line: it joins the tail (the oldest of five drops
    /// out) and, when it reports progress, becomes the byte count. Returns
    /// the reported bytes.
    pub fn observe(&mut self, line: String) -> (r: Option<u64>)
        ensures
            r == progress_bytes(line@),
            string_views(final(self).err_tail@) == (if old(self).err_tail@.len() >= 5 {
                string_views(old(self).err_tail@).drop_first()
            } else {
                string_views(old(self).err_tail@)
            }).push(line@),
            final(self).bytes_written == match r {
                Some(n) => n,
                None => old(self).bytes_written,
            },
    {
        let ghost t0 = string_views(self.err_tail@);
        if self.err_tail.len() >= ERROR_TAIL_LINES {
            self.err_tail.remove(0);
            assert(string_views(self.err_tail@) =~= t0.drop_first());
        }
        let p = parse_7z_progress(line.as_str());
        let ghost t1 = string_views(self.err_tail@);
        self.err_tail.push(line);
        assert(string_views(self.err_tail@) =~= t1.push(line@));
        if let Some(n) = p {
            self.bytes_written = n;
        }
        p
    }

    /// The failure report: the kept lines joined by newlines.
    pub fn failure_text(&self) -> (r: String)
        ensures
            r@ == join_with(string_views(self.err_tail@), "\n"@),
    {
        join_strings(&self.err_tail, "\n")
    }

    /// Bytes written: the last progress figure, or the measured size of the
    /// output when the tool reported none.
    pub fn bytes_written_or(&self, measured_output_size: u64) -> (r: u64)
        ensures
            r == (if self.bytes_written > 0 {
                self.bytes_written
            } else {
                measured_output_size
            }),
    {
        if self.bytes_written > 0 {
            self.bytes_written
        } else {
            measured_output_size
        }
    }
}

// ---------------------------------------------------------------------------
// Resuming
// ---------------------------------------------------------------------------

/// Paths to skip when resuming: regular, non-empty entries whose file in the
/// output already has exactly the entry's size (`existing[i]` is the size
/// found for entry `i`, `None` when absent).
pub open spec fn resume_skips(entries: Seq<EntryModel>, existing: Seq<Option<u64>>) -> Seq<Seq<char>>
    decreases entries.len(),
{
    if entries.len() == 0 || existing.len() != entries.len() {
        Seq::empty()
    } else {
        let rest = resume_skips(entries.drop_last(), existing.drop_last());
        let e = entries.last();
        if !e.is_directory && e.size != 0 && existing.last() == Some(e.size) {
            rest.push(e.path)
        } else {
            rest
        }
    }
}

/// The entries an interrupted extraction already completed.
pub fn resume_exclusions(entries: &Vec<crate::types::ArchiveEntry>, existing: &Vec<Option<u64>>) -> (r:
    Vec<String>)
    requires
        existing@.len() == entries@.len(),
    ensures
        string_views(r@) == resume_skips(entry_views(entries@), existing@),
{
    let mut r: Vec<String> = Vec::new();
    let mut i: usize = 0;
    while i < entries.len()
        invariant
            i <= entries@.len(),
            existing@.len() == entries@.len(),
            string_views(r@) == resume_skips(entry_views(entries@.take(i as int)), existing@.take(i as int)),
        decreases entries.len() - i,
    {
        assert(entry_views(entries@.take(i + 1)).drop_last() =~= entry_views(entries@.take(i as int)));
        assert(existing@.take(i + 1).drop_last() =~= existing@.take(i as int));
        let e = &entries[i];
        if !e.is_directory && e.size != 0 && existing[i] == Some(e.size) {
            let ghost r0 = string_views(r@);
            r.push(e.path.clone());
            assert(string_views(r@) =~= r0.push(e.path@));
        }
        i = i + 1;
    }
    assert(entries@.take(entries.len() as int) =~= entries@);
    assert(existing@.take(existing.len() as int) =~= existing@);
    r
}

/// Sum of the sizes of the regular (non-directory) entries.
pub open spec fn regular_total(entries: Seq<EntryModel>) -> int
    decreases entries.len(),
{
    if entries.len() == 0 {
        0
    } else {
        regular_total(entries.drop_last()) + if entries.last().is_directory {
            0
        } else {
            entries.last().size as int
        }
    }
}

/// Total uncompressed size of the regular entries, `None` on overflow.
pub fn uncompressed_total(entries: &Vec<crate::types::ArchiveEntry>) -> (r: Option<u64>)
    ensures
        match r {
            Some(t) => t == regular_total(entry_views(entries@)),
            None => regular_total(entry_views(entries@)) > u64::MAX,
        },
{
    let mut total: u64 = 0;
    let mut i: usize = 0;
    while i < entries.len()
        invariant
            i <= entries@.len(),
            total == regular_total(entry_views(entries@.take(i as int))),
        decreases entries.len() - i,
    {
        assert(entry_views(entries@.take(i + 1)).drop_last() =~= entry_views(entries@.take(i as int)));
        if !entries[i].is_directory {
            match total.checked_add(entries[i].size) {
                Some(t) => {
                    total = t;
                },
                None => {
                    proof {
                        lemma_regular_total_mono(entry_views(entries@), i + 1);
                        assert(entry_views(entries@).take(i + 1) =~= entry_views(entries@.take(i + 1)));
                    }
                    return None;
                },
            }
        }
        i = i + 1;
    }
    assert(entries@.take(entries.len() as int) =~= entries@);
    Some(total)
}

proof fn lemma_regular_total_mono(es: Seq<EntryModel>, n: int)
    requires
        0 <= n <= es.len(),
    ensures
        regular_total(es.take(n)) <= regular_total(es),
    decreases es.len() - n,
{
    if n < es.len() {
        lemma_regular_total_mono(es, n + 1);
        assert(es.take(n + 1).drop_last() =~= es.take(n));
    } else {
        assert(es.take(n) =~= es);
    }
}

} // verus!
