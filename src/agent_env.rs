//! Command lines, paths and environment for the helper process's embedded
//! Python runtime.

use vstd::prelude::*;
use crate::schema::strs_view;

verus! {

/// Python modules the helper process needs on the UI-automation platform.
pub const WINDOWS_AGENT_MODULES: [&'static str; 4] = ["wxauto", "pyautogui", "pyperclip", "comtypes"];

/// One `import` line per module.
pub open spec fn import_script(modules: Seq<&str>) -> Seq<char>
    decreases modules.len(),
{
    if modules.len() == 0 {
        Seq::empty()
    } else {
        import_script(modules.drop_last()) + "import "@ + modules.last()@ + "\n"@
    }
}

/// The interpreter arguments that import each of `modules`.
pub fn python_check_args(modules: &[&str]) -> (r: Vec<String>)
    ensures
        r@.len() == 2,
        r@[0]@ == "-c"@,
        r@[1]@ == import_script(modules@),
{
    let mut script = String::new();
    let mut i: usize = 0;
    while i < modules.len()
        invariant
            i <= modules.len(),
            script@ == import_script(modules@.subrange(0, i as int)),
        decreases modules.len() - i,
    {
        script.append("import ");
        script.append(modules[i]);
        script.append("\n");
        assert(modules@.subrange(0, i + 1).drop_last() =~= modules@.subrange(0, i as int));
        i = i + 1;
    }
    assert(modules@.subrange(0, i as int) =~= modules@);
    vec![String::from_str("-c"), script]
}

/// The interpreter arguments that install a requirements file.
pub fn pip_install_args(requirements: &str) -> (r: Vec<String>)
    ensures
        strs_view(r@) == seq![
            "-m"@,
            "pip"@,
            "install"@,
            "--disable-pip-version-check"@,
            "--no-input"@,
            "-r"@,
            requirements@,
        ],
{
    let r = vec![
        String::from_str("-m"),
        String::from_str("pip"),
        String::from_str("install"),
        String::from_str("--disable-pip-version-check"),
        String::from_str("--no-input"),
        String::from_str("-r"),
        requirements.to_owned(),
    ];
    assert(strs_view(r@) =~= seq![
        "-m"@,
        "pip"@,
        "install"@,
        "--disable-pip-version-check"@,
        "--no-input"@,
        "-r"@,
        requirements@,
    ]);
    r
}

/// `part` under `base`, with one `/` between them.
pub open spec fn joined(base: Seq<char>, part: Seq<char>) -> Seq<char> {
    if base.len() == 0 {
        part
    } else if base.last() == '/' {
        base + part
    } else {
        base + "/"@ + part
    }
}

/// `part` under `base`, with one `/` between them.
pub fn path_join(base: &str, part: &str) -> (r: String)
    ensures
        r@ == joined(base@, part@),
{
    let cs = crate::text::chars_of(base);
    if cs.len() == 0 {
        return part.to_owned();
    }
    if cs[cs.len() - 1] == '/' {
        base.to_owned().concat(part)
    } else {
        base.to_owned().concat("/").concat(part)
    }
}

/// The helper's requirements file under the application root.
pub fn windows_requirements_path(base: &str) -> (r: String)
    ensures
        r@ == joined(joined(joined(base@, "platform_agents"@), "windows"@), "requirements.txt"@),
{
    let a = path_join(base, "platform_agents");
    let b = path_join(a.as_str(), "windows");
    path_join(b.as_str(), "requirements.txt")
}

/// The vendored automation package under the application root.
pub fn windows_wxauto_vendor_root(base: &str) -> (r: String)
    ensures
        r@ == joined(
            joined(joined(joined(base@, "platform_agents"@), "windows"@), "vendor"@),
            "wxauto"@,
        ),
{
    let a = path_join(base, "platform_agents");
    let b = path_join(a.as_str(), "windows");
    let c = path_join(b.as_str(), "vendor");
    path_join(c.as_str(), "wxauto")
}

/// The embedded interpreter and its package directory under the resource root.
pub fn embedded_python_paths(resource_root: &str) -> (r: (String, String))
    ensures
        r.0@ == joined(joined(resource_root@, "python"@), "python.exe"@),
        r.1@ == joined(joined(joined(resource_root@, "python"@), "Lib"@), "site-packages"@),
{
    let home = path_join(resource_root, "python");
    let exe = path_join(home.as_str(), "python.exe");
    let lib = path_join(home.as_str(), "Lib");
    let site = path_join(lib.as_str(), "site-packages");
    (exe, site)
}

/// The environment that points the embedded interpreter at its own files.
pub fn embedded_python_env(resource_root: &str) -> (r: Vec<(String, String)>)
    ensures
        r@.len() == 3,
        r@[0].0@ == "PYTHONHOME"@,
        r@[0].1@ == joined(resource_root@, "python"@),
        r@[1].0@ == "PYTHONPATH"@,
        r@[1].1@ == joined(joined(joined(resource_root@, "python"@), "Lib"@), "site-packages"@),
        r@[2].0@ == "PYTHONNOUSERSITE"@,
        r@[2].1@ == "1"@,
{
    let home = path_join(resource_root, "python");
    let (_, site) = embedded_python_paths(resource_root);
    vec![
        (String::from_str("PYTHONHOME"), home),
        (String::from_str("PYTHONPATH"), site),
        (String::from_str("PYTHONNOUSERSITE"), String::from_str("1")),
    ]
}

} // verus!

verus! {

/// The `;`-separated parts of `s`, as `str::split(';')` yields them.
pub open spec fn split_parts(s: Seq<char>) -> Seq<Seq<char>>
    decreases s.len(),
{
    if s.len() == 0 {
        seq![Seq::<char>::empty()]
    } else {
        let p = split_parts(s.drop_last());
        if s.last() == ';' {
            p.push(Seq::<char>::empty())
        } else {
            p.update(p.len() - 1, p.last().push(s.last()))
        }
    }
}

proof fn lemma_split_parts_nonempty(s: Seq<char>)
    ensures
        split_parts(s).len() >= 1,
    decreases s.len(),
{
    if s.len() > 0 {
        lemma_split_parts_nonempty(s.drop_last());
    }
}

/// The environment after adding `extra` to the search path: appended to the
/// first `PYTHONPATH` entry with a `;` (none where that entry is empty),
/// unless already one of its parts; a new entry where there is none.
pub open spec fn with_pythonpath(env: Seq<(Seq<char>, Seq<char>)>, extra: Seq<char>) -> Seq<(Seq<char>, Seq<char>)> {
    if exists|k: int| 0 <= k < env.len() && env[k].0 == "PYTHONPATH"@ {
        let k = choose|k: int|
            0 <= k < env.len() && env[k].0 == "PYTHONPATH"@ && forall|j: int| 0 <= j < k ==> env[j].0 != "PYTHONPATH"@;
        let v = env[k].1;
        if split_parts(v).contains(extra) {
            env
        } else {
            env.update(k, (env[k].0, v + (if v.len() > 0 { ";"@ } else { Seq::<char>::empty() }) + extra))
        }
    } else {
        env.push(("PYTHONPATH"@, extra))
    }
}

pub open spec fn env_view(env: Seq<(String, String)>) -> Seq<(Seq<char>, Seq<char>)> {
    env.map_values(|e: (String, String)| (e.0@, e.1@))
}

fn has_part(value: &str, extra: &str) -> (r: bool)
    ensures
        r == split_parts(value@).contains(extra@),
{
    let cs = crate::text::chars_of(value);
    let want = crate::text::chars_of(extra);
    let mut start: usize = 0;
    let mut i: usize = 0;
    let mut found = false;
    proof {
        assert(cs@.subrange(0, 0) =~= Seq::<char>::empty());
    }
    while i < cs.len()
        invariant
            start <= i <= cs.len(),
            cs@ == value@,
            want@ == extra@,
            split_parts(cs@.subrange(0, i as int)).len() >= 1,
            split_parts(cs@.subrange(0, i as int)).last() == cs@.subrange(start as int, i as int),
            found == split_parts(cs@.subrange(0, i as int)).drop_last().contains(extra@),
        decreases cs.len() - i,
    {
        let ghost p = split_parts(cs@.subrange(0, i as int));
        let ghost s2 = cs@.subrange(0, i + 1);
        assert(s2.drop_last() =~= cs@.subrange(0, i as int));
        if cs[i] == ';' {
            let part = vstd::slice::slice_subrange(cs.as_slice(), start, i);
            let same = slices_equal(part, want.as_slice());
            proof {
                let q = p.push(Seq::<char>::empty());
                assert(q.drop_last() =~= p);
                assert(p =~= p.drop_last().push(p.last()));
                if p.drop_last().contains(extra@) {
                    let k = choose|k: int| 0 <= k < p.drop_last().len() && p.drop_last()[k] == extra@;
                    assert(p[k] == extra@);
                }
                if p.contains(extra@) {
                    let k = choose|k: int| 0 <= k < p.len() && p[k] == extra@;
                    if k < p.len() - 1 {
                        assert(p.drop_last()[k] == extra@);
                    }
                }
                if same {
                    assert(p[p.len() - 1] == extra@);
                }
            }
            found = found || same;
            start = i + 1;
            proof {
                assert(cs@.subrange(start as int, i + 1) =~= Seq::<char>::empty());
            }
        } else {
            proof {
                let q = p.update(p.len() - 1, p.last().push(cs@[i as int]));
                assert(q.drop_last() =~= p.drop_last());
                assert(cs@.subrange(start as int, i + 1) =~= cs@.subrange(start as int, i as int).push(
                    cs@[i as int],
                ));
            }
        }
        i = i + 1;
    }
    assert(cs@.subrange(0, i as int) =~= cs@);
    let last = vstd::slice::slice_subrange(cs.as_slice(), start, i);
    let same = slices_equal(last, want.as_slice());
    proof {
        let p = split_parts(cs@);
        assert(p =~= p.drop_last().push(p.last()));
        if p.drop_last().contains(extra@) {
            let k = choose|k: int| 0 <= k < p.drop_last().len() && p.drop_last()[k] == extra@;
            assert(p[k] == extra@);
        }
        if p.contains(extra@) {
            let k = choose|k: int| 0 <= k < p.len() && p[k] == extra@;
            if k < p.len() - 1 {
                assert(p.drop_last()[k] == extra@);
            }
        }
        if same {
            assert(p[p.len() - 1] == extra@);
        }
    }
    found || same
}

fn slices_equal(a: &[char], b: &[char]) -> (r: bool)
    ensures
        r == (a@ == b@),
{
    if a.len() != b.len() {
        return false;
    }
    let mut i: usize = 0;
    while i < a.len()
        invariant
            a.len() == b.len(),
            i <= a.len(),
            forall|j: int| 0 <= j < i ==> a@[j] == b@[j],
        decreases a.len() - i,
    {
        if a[i] != b[i] {
            return false;
        }
        i = i + 1;
    }
    assert(a@ =~= b@);
    true
}

/// Adds `extra` to the search path of `env`: to the first `PYTHONPATH`
/// entry, after a `;`, unless it is already one of its parts; as a new entry
/// where there is none.
pub fn append_pythonpath(env: &mut Vec<(String, String)>, extra: &str)
    ensures
        env_view(final(env)@) == with_pythonpath(env_view(old(env)@), extra@),
{
    let ghost ev = env_view(env@);
    let mut k: usize = 0;
    while k < env.len()
        invariant
            k <= env.len(),
            ev == env_view(env@),
            env@ == old(env)@,
            forall|j: int| 0 <= j < k ==> ev[j].0 != "PYTHONPATH"@,
        decreases env.len() - k,
    {
        assert(ev[k as int] == (env@[k as int].0@, env@[k as int].1@));
        if crate::text::text_eq(env[k].0.as_str(), "PYTHONPATH") {
            proof {
                let c = choose|c: int|
                    0 <= c < ev.len() && ev[c].0 == "PYTHONPATH"@ && forall|j: int| 0 <= j < c ==> ev[j].0 != "PYTHONPATH"@;
                if c < k {
                    assert(ev[c].0 != "PYTHONPATH"@);
                }
                if c > k {
                    assert(ev[k as int].0 != "PYTHONPATH"@);
                }
                assert(c == k);
            }
            if has_part(env[k].1.as_str(), extra) {
                return;
            }
            let key = env[k].0.clone();
            let mut value = env[k].1.clone();
            if value.as_str().unicode_len() > 0 {
                value.append(";");
            }
            value.append(extra);
            let ghost nv = value@;
            env.set(k, (key, value));
            assert(env_view(env@) =~= ev.update(k as int, (ev[k as int].0, nv)));
            return;
        }
        k = k + 1;
    }
    env.push((String::from_str("PYTHONPATH"), extra.to_owned()));
    assert(env_view(env@) =~= ev.push(("PYTHONPATH"@, extra@)));
}

} // verus!
