//! Setting up the tool on a machine: recognizing the Linux distribution
//! and architecture, finding or naming the PCRE library, and adding the
//! library directory to the shell configuration.

use vstd::prelude::*;
use crate::text::{
    chars_of, contains, contains_exec, lines, lines_exec, push_all, push_lit, slice_vec, split,
    split_exec, starts_with, starts_with_exec, string_of, string_views, trim, trim_exec,
    trim_end_matches, trim_end_matches_exec, trim_start_matches, trim_start_matches_exec, views,
    eq_chars,
};

verus! {

/// What `str::to_lowercase` returns.
pub uninterp spec fn lowercase(s: Seq<char>) -> Seq<char>;

/// `str::to_lowercase`. The contract claims only that the result is
/// `lowercase` of the text.
#[verifier::external_body]
pub(crate) fn to_lowercase(s: &str) -> (r: String)
    ensures
        r@ == lowercase(s@),
{
    s.to_lowercase()
}

/// `str::trim_matches('"')`.
pub open spec fn unquoted(s: Seq<char>) -> Seq<char> {
    trim_end_matches(trim_start_matches(s, "\""@), "\""@)
}

/// The value of a `KEY=value` line: the text between its first and second
/// `=`, without surrounding quotes.
pub open spec fn release_value(line: Seq<char>) -> Seq<char> {
    unquoted(split(line, "="@)[1])
}

/// Name and id of the distribution from the lines of `/etc/os-release`:
/// the last `NAME=` and `ID=` lines, `Unknown` and `unknown` when missing.
pub open spec fn os_release_fields(ls: Seq<Seq<char>>) -> (Seq<char>, Seq<char>)
    decreases ls.len(),
{
    if ls.len() == 0 {
        ("Unknown"@, "unknown"@)
    } else {
        let (name, id) = os_release_fields(ls.drop_last());
        let l = ls.last();
        if starts_with(l, "NAME="@) {
            (release_value(l), id)
        } else if starts_with(l, "ID="@) {
            (name, release_value(l))
        } else {
            (name, id)
        }
    }
}

/// The distribution id from the lines of `/etc/lsb-release`: the last
/// `DISTRIB_ID=` line, lower-cased; `None` when missing.
pub open spec fn lsb_release_id(ls: Seq<Seq<char>>) -> Option<Seq<char>>
    decreases ls.len(),
{
    if ls.len() == 0 {
        None
    } else if starts_with(ls.last(), "DISTRIB_ID="@) {
        Some(lowercase(release_value(ls.last())))
    } else {
        lsb_release_id(ls.drop_last())
    }
}

/// Name and id of the distribution, from the files that exist: the
/// content of `/etc/os-release` or else of `/etc/lsb-release`, or else
/// which of the Debian, Fedora and Red Hat marker files exists.
pub open spec fn distribution(
    os_release: Option<Seq<char>>,
    lsb_release: Option<Seq<char>>,
    debian: bool,
    fedora: bool,
    redhat: bool,
) -> (Seq<char>, Seq<char>) {
    match os_release {
        Some(c) => os_release_fields(lines(c)),
        None => match lsb_release {
            Some(c) => match lsb_release_id(lines(c)) {
                Some(id) => (id, id),
                None => ("Unknown"@, "unknown"@),
            },
            None => if debian {
                ("Debian"@, "debian"@)
            } else if fedora {
                ("Fedora"@, "fedora"@)
            } else if redhat {
                ("Red Hat"@, "rhel"@)
            } else {
                ("Unknown"@, "unknown"@)
            },
        },
    }
}

/// Executable `release_value` for a line that holds `=`.
fn release_value_exec(line: &[char]) -> (r: Vec<char>)
    requires
        contains(line@, "="@),
    ensures
        r@ == release_value(line@),
{
    let eq = chars_of("=");
    let quote = chars_of("\"");
    proof {
        reveal_strlit("=");
        reveal_strlit("\"");
        crate::text::lemma_split_contains(line@, eq@);
    }
    let parts = split_exec(line, eq.as_slice());
    assert(views(parts@)[1] == parts@[1]@);
    let a = trim_start_matches_exec(parts[1].as_slice(), quote.as_slice());
    trim_end_matches_exec(a.as_slice(), quote.as_slice())
}

/// A line that starts with `p` ending in `=` holds `=`.
proof fn lemma_prefix_eq(l: Seq<char>, p: Seq<char>)
    requires
        starts_with(l, p),
        p.len() > 0,
        p.last() == '=',
    ensures
        contains(l, "="@),
{
    reveal_strlit("=");
    assert(l.subrange(p.len() - 1, p.len() as int) =~= "="@) by {
        assert(l.subrange(0, p.len() as int)[p.len() - 1] == p.last());
    }
    assert(crate::text::matches_at(l, "="@, p.len() - 1));
}

/// Name and id of the distribution, from the release files that exist
/// (their content) and the marker files that exist.
pub fn detect_linux_distribution(
    os_release: Option<&str>,
    lsb_release: Option<&str>,
    debian: bool,
    fedora: bool,
    redhat: bool,
) -> (r: (String, String))
    ensures
        (r.0@, r.1@) == distribution(
            match os_release { Some(c) => Some(c@), None => None },
            match lsb_release { Some(c) => Some(c@), None => None },
            debian,
            fedora,
            redhat,
        ),
{
    match os_release {
        Some(c) => {
            let cs = chars_of(c);
            let ls = lines_exec(cs.as_slice());
            let ghost lv = views(ls@);
            let mut name = chars_of("Unknown");
            let mut id = chars_of("unknown");
            let name_p = chars_of("NAME=");
            let id_p = chars_of("ID=");
            let mut k: usize = 0;
            while k < ls.len()
                invariant
                    lv == views(ls@),
                    name_p@ == "NAME="@,
                    id_p@ == "ID="@,
                    k <= ls@.len(),
                    (name@, id@) == os_release_fields(lv.take(k as int)),
                decreases ls@.len() - k,
            {
                assert(lv.take(k + 1).drop_last() =~= lv.take(k as int));
                assert(lv.take(k + 1).last() == ls@[k as int]@);
                proof {
                    reveal_strlit("NAME=");
                    reveal_strlit("ID=");
                }
                if starts_with_exec(ls[k].as_slice(), name_p.as_slice()) {
                    proof {
                        lemma_prefix_eq(ls@[k as int]@, name_p@);
                    }
                    name = release_value_exec(ls[k].as_slice());
                } else if starts_with_exec(ls[k].as_slice(), id_p.as_slice()) {
                    proof {
                        lemma_prefix_eq(ls@[k as int]@, id_p@);
                    }
                    id = release_value_exec(ls[k].as_slice());
                }
                k = k + 1;
            }
            assert(lv.take(ls@.len() as int) =~= lv);
            (string_of(name.as_slice()), string_of(id.as_slice()))
        },
        None => match lsb_release {
            Some(c) => {
                let cs = chars_of(c);
                let ls = lines_exec(cs.as_slice());
                let ghost lv = views(ls@);
                let p = chars_of("DISTRIB_ID=");
                let mut found: Option<String> = None;
                let mut k: usize = 0;
                while k < ls.len()
                    invariant
                        lv == views(ls@),
                        p@ == "DISTRIB_ID="@,
                        k <= ls@.len(),
                        match found {
                            Some(f) => lsb_release_id(lv.take(k as int)) == Some(f@),
                            None => lsb_release_id(lv.take(k as int)) is None,
                        },
                    decreases ls@.len() - k,
                {
                    assert(lv.take(k + 1).drop_last() =~= lv.take(k as int));
                    assert(lv.take(k + 1).last() == ls@[k as int]@);
                    proof {
                        reveal_strlit("DISTRIB_ID=");
                    }
                    if starts_with_exec(ls[k].as_slice(), p.as_slice()) {
                        proof {
                            lemma_prefix_eq(ls@[k as int]@, p@);
                        }
                        let v = release_value_exec(ls[k].as_slice());
                        let vs = string_of(v.as_slice());
                        found = Some(to_lowercase(vs.as_str()));
                    }
                    k = k + 1;
                }
                assert(lv.take(ls@.len() as int) =~= lv);
                match found {
                    Some(id) => {
                        let name = id.clone();
                        (name, id)
                    },
                    None => (string_of(chars_of("Unknown").as_slice()), string_of(chars_of("unknown").as_slice())),
                }
            },
            None => {
                if debian {
                    ("Debian".to_owned(), "debian".to_owned())
                } else if fedora {
                    ("Fedora".to_owned(), "fedora".to_owned())
                } else if redhat {
                    ("Red Hat".to_owned(), "rhel".to_owned())
                } else {
                    ("Unknown".to_owned(), "unknown".to_owned())
                }
            },
        },
    }
}

} // verus!

verus! {

/// The architecture of the machine from the output of `uname -m` (`None`
/// when it could not run or failed): `x86_64`, `arm64` for `aarch64` or
/// `arm64`, and `x86` for anything else.
pub open spec fn architecture(uname: Option<Seq<char>>) -> Seq<char> {
    match uname {
        Some(out) => {
            let a = trim(out);
            if a == "x86_64"@ {
                "x86_64"@
            } else if a == "aarch64"@ || a == "arm64"@ {
                "arm64"@
            } else {
                "x86"@
            }
        },
        None => "x86"@,
    }
}

/// The architecture of the machine from the output of `uname -m`.
pub fn arch_name(uname: Option<&str>) -> (r: String)
    ensures
        r@ == architecture(match uname { Some(u) => Some(u@), None => None }),
{
    match uname {
        Some(out) => {
            let a = trim_exec(chars_of(out).as_slice());
            if eq_chars(a.as_slice(), chars_of("x86_64").as_slice()) {
                "x86_64".to_owned()
            } else if eq_chars(a.as_slice(), chars_of("aarch64").as_slice()) || eq_chars(a.as_slice(), chars_of("arm64").as_slice()) {
                "arm64".to_owned()
            } else {
                "x86".to_owned()
            }
        },
        None => "x86".to_owned(),
    }
}

/// Whether `id` is one of `options`.
pub open spec fn is_one_of(id: Seq<char>, options: Seq<Seq<char>>) -> bool {
    exists|i: int| 0 <= i < options.len() && options[i] == id
}

/// Whether `id` is one of the literals `options`.
fn is_one_of_exec(id: &str, options: &[&str]) -> (r: bool)
    ensures
        r == is_one_of(id@, crate::rules::lit_views(options@)),
{
    let ic = chars_of(id);
    let mut k: usize = 0;
    while k < options.len()
        invariant
            k <= options@.len(),
            ic@ == id@,
            forall|j: int| 0 <= j < k ==> options@[j]@ != id@,
        decreases options@.len() - k,
    {
        if eq_chars(ic.as_slice(), chars_of(options[k]).as_slice()) {
            assert(crate::rules::lit_views(options@)[k as int] == id@);
            return true;
        }
        k = k + 1;
    }
    assert(!is_one_of(id@, crate::rules::lit_views(options@))) by {
        if is_one_of(id@, crate::rules::lit_views(options@)) {
            let j = choose|j: int| 0 <= j < crate::rules::lit_views(options@).len() && #[trigger] crate::rules::lit_views(options@)[j] == id@;
            assert(options@[j]@ == id@);
        }
    }
    false
}

/// The package that provides the PCRE library on the distribution `id`,
/// with the command that installs it; `None` for an unrecognized
/// distribution.
pub open spec fn pcre_package_spec(id: Seq<char>) -> Option<(Seq<char>, Seq<char>)> {
    if is_one_of(id, seq!["ubuntu"@, "debian"@]) {
        Some(("libpcre3-dev"@, "  sudo apt-get install libpcre3-dev"@))
    } else if is_one_of(id, seq!["fedora"@, "rhel"@, "centos"@]) {
        Some(("pcre-devel"@, "  sudo dnf install pcre-devel"@))
    } else if is_one_of(id, seq!["arch"@, "manjaro"@]) {
        Some(("pcre"@, "  sudo pacman -S pcre"@))
    } else if is_one_of(id, seq!["opensuse"@, "suse"@]) {
        Some(("pcre-devel"@, "  sudo zypper install pcre-devel"@))
    } else if id == "alpine"@ {
        Some(("pcre-dev"@, "  sudo apk add pcre-dev"@))
    } else {
        None
    }
}

/// The package that provides the PCRE library on the distribution
/// `distro_id`, and the command that installs it.
pub fn pcre_package(distro_id: &str) -> (r: Option<(String, String)>)
    ensures
        match r {
            Some((p, c)) => pcre_package_spec(distro_id@) == Some((p@, c@)),
            None => pcre_package_spec(distro_id@) is None,
        },
{
    let a: &[&str] = &["ubuntu", "debian"];
    let b: &[&str] = &["fedora", "rhel", "centos"];
    let c: &[&str] = &["arch", "manjaro"];
    let d: &[&str] = &["opensuse", "suse"];
    let e: &[&str] = &["alpine"];
    assert(crate::rules::lit_views(a@) =~= seq!["ubuntu"@, "debian"@]);
    assert(crate::rules::lit_views(b@) =~= seq!["fedora"@, "rhel"@, "centos"@]);
    assert(crate::rules::lit_views(c@) =~= seq!["arch"@, "manjaro"@]);
    assert(crate::rules::lit_views(d@) =~= seq!["opensuse"@, "suse"@]);
    if is_one_of_exec(distro_id, a) {
        Some(("libpcre3-dev".to_owned(), "  sudo apt-get install libpcre3-dev".to_owned()))
    } else if is_one_of_exec(distro_id, b) {
        Some(("pcre-devel".to_owned(), "  sudo dnf install pcre-devel".to_owned()))
    } else if is_one_of_exec(distro_id, c) {
        Some(("pcre".to_owned(), "  sudo pacman -S pcre".to_owned()))
    } else if is_one_of_exec(distro_id, d) {
        Some(("pcre-devel".to_owned(), "  sudo zypper install pcre-devel".to_owned()))
    } else if is_one_of_exec(distro_id, e) {
        assert(crate::rules::lit_views(e@)[0] == "alpine"@);
        Some(("pcre-dev".to_owned(), "  sudo apk add pcre-dev".to_owned()))
    } else {
        assert(distro_id@ != "alpine"@) by {
            if distro_id@ == "alpine"@ {
                assert(crate::rules::lit_views(e@)[0] == "alpine"@);
            }
        }
        None
    }
}

/// Where the PCRE library is looked for on the distribution `id`: the
/// common locations, then those of the distribution's family.
pub open spec fn pcre_locations_spec(id: Seq<char>) -> Seq<Seq<char>> {
    seq!["/usr/lib/libpcre.so"@, "/usr/lib64/libpcre.so"@, "/usr/local/lib/libpcre.so"@, "/lib/libpcre.so"@]
        + if is_one_of(id, seq!["arch"@, "manjaro"@]) {
        seq!["/usr/lib/libpcre.so.1"@, "/usr/lib/libpcre.so.0"@]
    } else if is_one_of(id, seq!["fedora"@, "rhel"@, "centos"@]) {
        seq!["/usr/lib64/libpcre.so.1"@, "/usr/lib64/libpcre.so.0"@]
    } else if is_one_of(id, seq!["ubuntu"@, "debian"@]) {
        seq!["/usr/lib/x86_64-linux-gnu/libpcre.so"@, "/usr/lib/x86_64-linux-gnu/libpcre.so.3"@, "/lib/x86_64-linux-gnu/libpcre.so.3"@]
    } else if id == "alpine"@ {
        seq!["/lib/libpcre.so.1"@]
    } else {
        Seq::empty()
    }
}

/// Appends owned copies of the literals `lits`.
fn push_strs(out: &mut Vec<String>, lits: &[&str])
    ensures
        string_views(final(out)@) == string_views(old(out)@) + crate::rules::lit_views(lits@),
{
    let mut k: usize = 0;
    while k < lits.len()
        invariant
            k <= lits@.len(),
            string_views(out@) == string_views(old(out)@) + crate::rules::lit_views(lits@.take(k as int)),
        decreases lits@.len() - k,
    {
        let ghost before = string_views(out@);
        out.push(lits[k].to_owned());
        assert(crate::rules::lit_views(lits@.take(k + 1)) =~= crate::rules::lit_views(lits@.take(k as int)).push(lits@[k as int]@));
        assert(string_views(out@) =~= before.push(lits@[k as int]@));
        k = k + 1;
    }
    assert(lits@.take(lits@.len() as int) =~= lits@);
}

/// The files where the PCRE library of the distribution `distro_id` may
/// be, in the order they are tried.
pub fn pcre_locations(distro_id: &str) -> (r: Vec<String>)
    ensures
        string_views(r@) == pcre_locations_spec(distro_id@),
{
    let mut out: Vec<String> = Vec::new();
    assert(string_views(out@) =~= Seq::empty());
    let common: &[&str] = &["/usr/lib/libpcre.so", "/usr/lib64/libpcre.so", "/usr/local/lib/libpcre.so", "/lib/libpcre.so"];
    assert(crate::rules::lit_views(common@) =~= seq!["/usr/lib/libpcre.so"@, "/usr/lib64/libpcre.so"@, "/usr/local/lib/libpcre.so"@, "/lib/libpcre.so"@]);
    push_strs(&mut out, common);
    let a: &[&str] = &["arch", "manjaro"];
    let b: &[&str] = &["fedora", "rhel", "centos"];
    let c: &[&str] = &["ubuntu", "debian"];
    let e: &[&str] = &["alpine"];
    assert(crate::rules::lit_views(a@) =~= seq!["arch"@, "manjaro"@]);
    assert(crate::rules::lit_views(b@) =~= seq!["fedora"@, "rhel"@, "centos"@]);
    assert(crate::rules::lit_views(c@) =~= seq!["ubuntu"@, "debian"@]);
    let extra: &[&str] = if is_one_of_exec(distro_id, a) {
        &["/usr/lib/libpcre.so.1", "/usr/lib/libpcre.so.0"]
    } else if is_one_of_exec(distro_id, b) {
        &["/usr/lib64/libpcre.so.1", "/usr/lib64/libpcre.so.0"]
    } else if is_one_of_exec(distro_id, c) {
        &["/usr/lib/x86_64-linux-gnu/libpcre.so", "/usr/lib/x86_64-linux-gnu/libpcre.so.3", "/lib/x86_64-linux-gnu/libpcre.so.3"]
    } else if is_one_of_exec(distro_id, e) {
        assert(crate::rules::lit_views(e@)[0] == "alpine"@);
        &["/lib/libpcre.so.1"]
    } else {
        assert(distro_id@ != "alpine"@) by {
            if distro_id@ == "alpine"@ {
                assert(crate::rules::lit_views(e@)[0] == "alpine"@);
            }
        }
        &[]
    };
    assert(crate::rules::lit_views(extra@) =~= (if is_one_of(distro_id@, seq!["arch"@, "manjaro"@]) {
        seq!["/usr/lib/libpcre.so.1"@, "/usr/lib/libpcre.so.0"@]
    } else if is_one_of(distro_id@, seq!["fedora"@, "rhel"@, "centos"@]) {
        seq!["/usr/lib64/libpcre.so.1"@, "/usr/lib64/libpcre.so.0"@]
    } else if is_one_of(distro_id@, seq!["ubuntu"@, "debian"@]) {
        seq!["/usr/lib/x86_64-linux-gnu/libpcre.so"@, "/usr/lib/x86_64-linux-gnu/libpcre.so.3"@, "/lib/x86_64-linux-gnu/libpcre.so.3"@]
    } else if distro_id@ == "alpine"@ {
        seq!["/lib/libpcre.so.1"@]
    } else {
        Seq::empty()
    }));
    push_strs(&mut out, extra);
    out
}

/// The library directories searched for the PCRE library when none of its
/// usual files exists.
pub fn pcre_search_dirs() -> (r: Vec<String>)
    ensures
        string_views(r@) == seq!["/usr/lib"@, "/usr/lib64"@, "/lib"@, "/lib64"@, "/usr/lib/x86_64-linux-gnu"@, "/lib/x86_64-linux-gnu"@],
{
    let mut out: Vec<String> = Vec::new();
    assert(string_views(out@) =~= Seq::empty());
    let dirs: &[&str] = &["/usr/lib", "/usr/lib64", "/lib", "/lib64", "/usr/lib/x86_64-linux-gnu", "/lib/x86_64-linux-gnu"];
    assert(crate::rules::lit_views(dirs@) =~= seq!["/usr/lib"@, "/usr/lib64"@, "/lib"@, "/lib64"@, "/usr/lib/x86_64-linux-gnu"@, "/lib/x86_64-linux-gnu"@]);
    push_strs(&mut out, dirs);
    assert(Seq::<Seq<char>>::empty() + crate::rules::lit_views(dirs@) =~= crate::rules::lit_views(dirs@));
    out
}

/// The shell configuration files in the home directory `home`, in the
/// order they are updated.
pub fn shell_config_files(home: &str) -> (r: Vec<String>)
    ensures
        string_views(r@) == seq![
            home@ + "/.bashrc"@,
            home@ + "/.zshrc"@,
            home@ + "/.bash_profile"@,
            home@ + "/.profile"@,
        ],
{
    let mut out: Vec<String> = Vec::new();
    let names: &[&str] = &["/.bashrc", "/.zshrc", "/.bash_profile", "/.profile"];
    let mut k: usize = 0;
    while k < names.len()
        invariant
            k <= names@.len(),
            names@ == seq!["/.bashrc", "/.zshrc", "/.bash_profile", "/.profile"],
            out@.len() == k,
            forall|j: int| 0 <= j < k ==> #[trigger] out@[j]@ == home@ + names@[j]@,
        decreases names@.len() - k,
    {
        let mut f = chars_of(home);
        push_lit(&mut f, names[k]);
        out.push(string_of(f.as_slice()));
        k = k + 1;
    }
    assert(string_views(out@) =~= seq![home@ + "/.bashrc"@, home@ + "/.zshrc"@, home@ + "/.bash_profile"@, home@ + "/.profile"@]);
    out
}

/// The lines added to a shell configuration: the library directory of
/// `ubi_dir` put on the library path.
pub open spec fn shell_config_lines_spec(ubi_dir: Seq<char>) -> Seq<char> {
    "\n# Added by Ubi\nexport LD_LIBRARY_PATH="@ + ubi_dir + "/lib:$LD_LIBRARY_PATH\n"@
}

/// The lines added to a shell configuration.
pub fn shell_config_lines(ubi_dir: &str) -> (r: String)
    ensures
        r@ == shell_config_lines_spec(ubi_dir@),
{
    let mut out = chars_of("\n# Added by Ubi\nexport LD_LIBRARY_PATH=");
    push_lit(&mut out, ubi_dir);
    push_lit(&mut out, "/lib:$LD_LIBRARY_PATH\n");
    string_of(out.as_slice())
}

/// A shell configuration with the library path added, or `None` when it
/// already sets it (holds `PATH=<ubi_dir>/lib`).
pub open spec fn shell_config_update(content: Seq<char>, ubi_dir: Seq<char>) -> Option<Seq<char>> {
    if contains(content, "PATH="@ + ubi_dir + "/lib"@) {
        None
    } else {
        Some(content + shell_config_lines_spec(ubi_dir))
    }
}

/// The shell configuration `content` with the library path of `ubi_dir`
/// added, unless it already sets it.
pub fn updated_shell_config(content: &str, ubi_dir: &str) -> (r: Option<String>)
    ensures
        match r {
            Some(s) => shell_config_update(content@, ubi_dir@) == Some(s@),
            None => shell_config_update(content@, ubi_dir@) is None,
        },
{
    let mut needle = chars_of("PATH=");
    push_lit(&mut needle, ubi_dir);
    push_lit(&mut needle, "/lib");
    let cs = chars_of(content);
    if contains_exec(cs.as_slice(), needle.as_slice()) {
        None
    } else {
        let lines_s = shell_config_lines(ubi_dir);
        let mut out = cs;
        push_lit(&mut out, lines_s.as_str());
        Some(string_of(out.as_slice()))
    }
}

/// Setting up the environment twice changes a shell configuration once:
/// a configuration that has been updated already sets the library path.
pub proof fn lemma_shell_config_update_once(content: Seq<char>, ubi_dir: Seq<char>)
    ensures
        shell_config_update(content, ubi_dir) matches Some(updated) ==> shell_config_update(updated, ubi_dir) is None,
{
    if let Some(updated) = shell_config_update(content, ubi_dir) {
        reveal_strlit("\n# Added by Ubi\nexport LD_LIBRARY_PATH=");
        reveal_strlit("/lib:$LD_LIBRARY_PATH\n");
        reveal_strlit("PATH=");
        reveal_strlit("/lib");
        let needle = "PATH="@ + ubi_dir + "/lib"@;
        let at: int = content.len() as int + 34;
        assert(updated.subrange(at, at + needle.len() as int) =~= needle);
        assert(crate::text::matches_at(updated, needle, at));
    }
}

} // verus!

verus! {

/// The first path that a file search printed (its first line), if any.
pub fn first_found(output: &str) -> (r: Option<String>)
    ensures
        match r {
            Some(p) => lines(output@).len() > 0 && p@ == lines(output@)[0],
            None => lines(output@).len() == 0,
        },
{
    let cs = chars_of(output);
    let ls = crate::text::lines_exec(cs.as_slice());
    if ls.len() == 0 {
        None
    } else {
        assert(views(ls@)[0] == ls@[0]@);
        Some(string_of(ls[0].as_slice()))
    }
}

} // verus!
