use vstd::prelude::*;

verus! {

/// Whether `t` occurs in `s` as a contiguous run of characters.
pub open spec fn contains_sub(s: Seq<char>, t: Seq<char>) -> bool {
    exists|i: int| 0 <= i && i + t.len() <= s.len() && #[trigger] s.subrange(i, i + t.len()) == t
}

/// The separator between entries of the executable search path.
pub open spec fn list_sep() -> Seq<char> {
    seq![';']
}

/// The search path after registering `entry`: unchanged when the entry already
/// occurs in it, otherwise the entry appended after a separator.
pub open spec fn registered(path: Seq<char>, entry: Seq<char>) -> Seq<char> {
    if contains_sub(path, entry) {
        path
    } else {
        path + list_sep() + entry
    }
}

/// Whether `t` occurs in `s` as a substring.
pub fn contains_text(s: &str, t: &str) -> (r: bool)
    ensures
        r == contains_sub(s@, t@),
{
    let n = s.unicode_len();
    let m = t.unicode_len();
    if m > n {
        return false;
    }
    let mut i: usize = 0;
    while i <= n - m
        invariant
            n == s@.len(),
            m == t@.len(),
            m <= n,
            forall|k: int| 0 <= k < i ==> #[trigger] s@.subrange(k, k + m) != t@,
        decreases n - m + 1 - i,
    {
        let mut j: usize = 0;
        let mut same = true;
        while j < m
            invariant
                n == s@.len(),
                m == t@.len(),
                i + m <= n,
                j <= m,
                same == (forall|k: int| 0 <= k < j ==> s@[i + k] == t@[k]),
            decreases m - j,
        {
            if s.get_char(i + j) != t.get_char(j) {
                same = false;
            }
            j = j + 1;
        }
        if same {
            assert(s@.subrange(i as int, i + m) =~= t@);
            return true;
        }
        assert(s@.subrange(i as int, i + m) != t@) by {
            let k = choose|k: int| 0 <= k < m && s@[i + k] != t@[k];
            assert(s@.subrange(i as int, i + m)[k] == s@[i + k]);
        }
        i = i + 1;
    }
    proof {
        if contains_sub(s@, t@) {
            let k = choose|k: int| 0 <= k && k + t@.len() <= s@.len() && #[trigger] s@.subrange(k, k + t@.len()) == t@;
            assert(s@.subrange(k, k + m) != t@);
        }
    }
    false
}

/// Registers `entry` on the search path `current`: `None` when the path
/// already holds it (nothing to change), otherwise the new value to set.
pub fn register_entry(current: &str, entry: &str) -> (r: Option<String>)
    ensures
        r is None <==> contains_sub(current@, entry@),
        r matches Some(p) ==> p@ == registered(current@, entry@),
{
    if contains_text(current, entry) {
        None
    } else {
        let p = String::from_str(current).concat(";").concat(entry);
        proof {
            reveal_strlit(";");
        }
        Some(p)
    }
}

/// Registering the same entry twice leaves the search path as the first
/// registration made it, and that path holds the entry.
pub proof fn lemma_registration_idempotent(path: Seq<char>, entry: Seq<char>)
    ensures
        registered(registered(path, entry), entry) == registered(path, entry),
        contains_sub(registered(path, entry), entry),
{
    if !contains_sub(path, entry) {
        let r = path + list_sep() + entry;
        let i = path.len() as int + 1;
        assert(r.subrange(i, i + entry.len() as int) =~= entry);
    }
}

/// Registering an entry that is not yet on the search path, and holds no
/// separator, leaves it there exactly once: at the one position after the
/// old path and the separator.
pub proof fn lemma_registration_single_occurrence(path: Seq<char>, entry: Seq<char>)
    requires
        !contains_sub(path, entry),
        forall|k: int| 0 <= k < entry.len() ==> #[trigger] entry[k] != ';',
    ensures
        forall|i: int|
            0 <= i && i + entry.len() <= registered(path, entry).len() && #[trigger] registered(
                path,
                entry,
            ).subrange(i, i + entry.len()) == entry ==> i == path.len() + 1,
{
    let r = registered(path, entry);
    assert(r == path + list_sep() + entry);
    assert forall|i: int|
        0 <= i && i + entry.len() <= r.len() && #[trigger] r.subrange(i, i + entry.len()) == entry implies i
            == path.len() + 1 by {
        if i + entry.len() <= path.len() {
            assert(path.subrange(i, i + entry.len()) =~= r.subrange(i, i + entry.len()));
        } else if i <= path.len() {
            let k = path.len() - i;
            assert(r.subrange(i, i + entry.len())[k] == r[path.len() as int]);
            assert(entry[k] == ';');
        }
    }
}

pub open spec fn script_head() -> Seq<char> {
    "\n$jdkPath = \""@
}

pub open spec fn script_tail() -> Seq<char> {
    "\"\n$userPath = [Environment]::GetEnvironmentVariable(\"PATH\", \"User\")\nif ($userPath -notlike \"*$jdkPath*\") {\n    $newPath = \"$userPath;$jdkPath\"\n    [Environment]::SetEnvironmentVariable(\"PATH\", $newPath, \"User\")\n    Write-Host \"Updated user's PATH.\"\n} else {\n    Write-Host \"PATH already contains the JDK.\"\n}\n"@
}

/// The PowerShell script that appends `bin` to the user's stored search path
/// unless that path already holds it.
pub open spec fn persist_script(bin: Seq<char>) -> Seq<char> {
    script_head() + bin + script_tail()
}

/// The file name of the persistence script in the temporary directory.
pub open spec fn script_file_name() -> Seq<char> {
    "\\add_jdk_to_path.ps1"@
}

/// Where the persistence script is written: in the `TEMP` directory when it
/// is set, otherwise in `Temp` on the system drive, `C:` when that is unset.
pub open spec fn script_location(temp: Option<Seq<char>>, system_drive: Option<Seq<char>>) -> Seq<char> {
    let drive = match system_drive {
        Some(d) => d,
        None => "C:"@,
    };
    let dir = match temp {
        Some(t) => t,
        None => drive + "\\Temp"@,
    };
    dir + script_file_name()
}

/// Writes out the persistence script for the binary directory `bin`.
pub fn persistence_script(bin: &str) -> (r: String)
    ensures
        r@ == persist_script(bin@),
{
    String::from_str("\n$jdkPath = \"").concat(bin).concat(
        "\"\n$userPath = [Environment]::GetEnvironmentVariable(\"PATH\", \"User\")\nif ($userPath -notlike \"*$jdkPath*\") {\n    $newPath = \"$userPath;$jdkPath\"\n    [Environment]::SetEnvironmentVariable(\"PATH\", $newPath, \"User\")\n    Write-Host \"Updated user's PATH.\"\n} else {\n    Write-Host \"PATH already contains the JDK.\"\n}\n",
    )
}

/// The path of the persistence script, from the `TEMP` and `SystemDrive`
/// variables.
pub fn persistence_script_path(temp: Option<&str>, system_drive: Option<&str>) -> (r: String)
    ensures
        r@ == script_location(
            match temp {
                Some(t) => Some(t@),
                None => None,
            },
            match system_drive {
                Some(d) => Some(d@),
                None => None,
            },
        ),
{
    let dir = match temp {
        Some(t) => String::from_str(t),
        None => {
            let drive = match system_drive {
                Some(d) => String::from_str(d),
                None => String::from_str("C:"),
            };
            drive.concat("\\Temp")
        },
    };
    dir.concat("\\add_jdk_to_path.ps1")
}

} // verus!
