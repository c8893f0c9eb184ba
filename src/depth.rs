//! The `Depth` of a request, how it is lowered one level at a time during
//! recursive descent, and which entries a descent may visit.
use vstd::prelude::*;
use vstd::string::*;

verus! {

/// How far below a collection a method applies.
#[derive(Clone, Copy, PartialEq, Eq, Structural, Debug)]
pub enum Depth {
    Zero,
    One,
    Infinity,
}

impl Depth {
    pub open spec fn lower_spec(self) -> Option<Depth> {
        match self {
            Depth::Zero => None,
            Depth::One => Some(Depth::Zero),
            Depth::Infinity => Some(Depth::Infinity),
        }
    }

    /// The depth one level down: none below `Zero`.
    pub fn lower(self) -> (r: Option<Depth>)
        ensures
            r == self.lower_spec(),
    {
        match self {
            Depth::Zero => None,
            Depth::One => Some(Depth::Zero),
            Depth::Infinity => Some(Depth::Infinity),
        }
    }

    /// The value of the `Depth` header: `0`, `1` or `infinity`.
    pub fn parse(s: &str) -> (r: Option<Depth>)
        ensures
            r == (if s@ == "0"@ {
                Some(Depth::Zero)
            } else if s@ == "1"@ {
                Some(Depth::One)
            } else if s@ == "infinity"@ {
                Some(Depth::Infinity)
            } else {
                None
            }),
    {
        let t = String::from_str(s);
        if t == String::from_str("0") {
            Some(Depth::Zero)
        } else if t == String::from_str("1") {
            Some(Depth::One)
        } else if t == String::from_str("infinity") {
            Some(Depth::Infinity)
        } else {
            None
        }
    }

    /// The header value of this depth.
    pub fn as_header(self) -> (r: String)
        ensures
            r@ == (match self {
                Depth::Zero => "0"@,
                Depth::One => "1"@,
                Depth::Infinity => "infinity"@,
            }),
    {
        match self {
            Depth::Zero => String::from_str("0"),
            Depth::One => String::from_str("1"),
            Depth::Infinity => String::from_str("infinity"),
        }
    }
}

/// Whether a descent that starts at depth `d` lists the entries `level`
/// levels below its root: the root itself always, and a directory listed at
/// depth `e` has its children listed at `e` lowered, while that exists.
pub open spec fn lists_level(d: Depth, level: nat) -> bool
    decreases level,
{
    if level == 0 {
        true
    } else {
        match d.lower_spec() {
            Some(next) => lists_level(next, (level - 1) as nat),
            None => false,
        }
    }
}

/// Depth `0` lists the resource alone, depth `1` it and its immediate
/// children, and `infinity` every level of the tree.
pub proof fn lemma_depth_bounds_descent(level: nat)
    ensures
        lists_level(Depth::Zero, level) <==> level == 0,
        lists_level(Depth::One, level) <==> level <= 1,
        lists_level(Depth::Infinity, level),
    decreases level,
{
    if level > 0 {
        lemma_depth_bounds_descent((level - 1) as nat);
        if level > 1 {
            assert(lists_level(Depth::Zero, (level - 1) as nat) == false);
        }
    }
}

/// How the server treats symbolic links.
#[derive(Clone, Copy, PartialEq, Eq, Structural, Debug)]
pub struct LinkPolicy {
    /// Links are followed at all.
    pub follow_symlinks: bool,
    /// A followed link must stay inside the hosted directory.
    pub sandbox_symlinks: bool,
}

/// What the path resolver observed of one path.
#[derive(Clone, Copy, PartialEq, Eq, Structural, Debug)]
pub struct PathFacts {
    /// The path exists.
    pub exists: bool,
    /// It was reached through a symbolic link.
    pub symlink: bool,
    /// It lies inside the hosted directory.
    pub inside_root: bool,
}

/// A path reached through a link is served only where links are followed
/// and, under the sandbox, only inside the hosted directory.
pub open spec fn link_allowed(policy: LinkPolicy, f: PathFacts) -> bool {
    !(f.symlink && !policy.follow_symlinks) && !(f.symlink && policy.follow_symlinks
        && policy.sandbox_symlinks && !f.inside_root)
}

/// An existing path that the link rules allow.
pub open spec fn visible(policy: LinkPolicy, f: PathFacts) -> bool {
    f.exists && link_allowed(policy, f)
}

pub fn link_allowed_exec(policy: LinkPolicy, f: PathFacts) -> (r: bool)
    ensures
        r == link_allowed(policy, f),
{
    !(f.symlink && !policy.follow_symlinks) && !(f.symlink && policy.follow_symlinks
        && policy.sandbox_symlinks && !f.inside_root)
}

/// Whether a path may be served: it exists and the link rules allow it.
/// Every entry of a descent is checked again, not only the root.
pub fn is_visible(policy: LinkPolicy, f: PathFacts) -> (r: bool)
    ensures
        r == visible(policy, f),
{
    f.exists && link_allowed_exec(policy, f)
}

/// What a descent does with one entry of a directory that it lists at
/// `depth`.
#[derive(Clone, Copy, PartialEq, Eq, Structural, Debug)]
pub enum EntryStep {
    /// Leave the entry out: it is below the depth, missing, or hidden by the
    /// link rules.
    Skip,
    /// List the entry.
    List,
    /// List the entry, a directory, and descend into it at the given depth.
    ListAndDescend(Depth),
}

pub open spec fn descent_step_spec(depth: Depth, policy: LinkPolicy, f: PathFacts, is_dir: bool) -> EntryStep {
    match depth.lower_spec() {
        None => EntryStep::Skip,
        Some(next) => if !visible(policy, f) {
            EntryStep::Skip
        } else if is_dir {
            EntryStep::ListAndDescend(next)
        } else {
            EntryStep::List
        },
    }
}

/// The step of a descent for one entry (as the path resolver observed it,
/// links followed) of a directory listed at `depth`. Every entry is checked
/// again; a hidden one is skipped, not reported.
pub fn descent_step(depth: Depth, policy: LinkPolicy, f: PathFacts, is_dir: bool) -> (r: EntryStep)
    ensures
        r == descent_step_spec(depth, policy, f, is_dir),
{
    match depth.lower() {
        None => EntryStep::Skip,
        Some(next) => if !is_visible(policy, f) {
            EntryStep::Skip
        } else if is_dir {
            EntryStep::ListAndDescend(next)
        } else {
            EntryStep::List
        },
    }
}

/// The steps of a descent follow `lists_level`: an entry one level down is
/// listed exactly when it is visible and that level is in reach, and the
/// descent into it reaches, `k` levels further, what the parent reaches
/// `k + 1` levels down.
pub proof fn lemma_descent_step_levels(depth: Depth, policy: LinkPolicy, f: PathFacts, is_dir: bool)
    ensures
        !(descent_step_spec(depth, policy, f, is_dir) is Skip) <==> visible(policy, f)
            && lists_level(depth, 1),
        descent_step_spec(depth, policy, f, is_dir) is ListAndDescend ==> is_dir,
        descent_step_spec(depth, policy, f, is_dir) is List ==> !is_dir,
        descent_step_spec(depth, policy, f, is_dir) is ListAndDescend ==> forall|k: nat|
            #[trigger] lists_level(descent_step_spec(depth, policy, f, is_dir)->ListAndDescend_0, k)
                <==> lists_level(depth, k + 1),
{
    assert(lists_level(depth, 1) <==> depth.lower_spec() is Some) by {
        if let Some(n) = depth.lower_spec() {
            assert(lists_level(n, 0));
        }
    }
    if descent_step_spec(depth, policy, f, is_dir) is ListAndDescend {
        let next = descent_step_spec(depth, policy, f, is_dir)->ListAndDescend_0;
        assert(depth.lower_spec() == Some(next));
        assert forall|k: nat| #[trigger] lists_level(next, k) <==> lists_level(depth, k + 1) by {
            assert(lists_level(depth, k + 1) == lists_level(next, (k + 1 - 1) as nat));
        }
    }
}

/// The depth of a PROPFIND: that of its header, else `0`.
pub fn propfind_depth(header: Option<Depth>) -> (r: Depth)
    ensures
        r == (match header {
            Some(d) => d,
            None => Depth::Zero,
        }),
{
    match header {
        Some(d) => d,
        None => Depth::Zero,
    }
}

/// The depth of a COPY or MOVE: that of its header, else `infinity`.
pub fn copy_depth(header: Option<Depth>) -> (r: Depth)
    ensures
        r == (match header {
            Some(d) => d,
            None => Depth::Infinity,
        }),
{
    match header {
        Some(d) => d,
        None => Depth::Infinity,
    }
}

/// The URL of the entry `name` of the collection at `url`: joined with one
/// `/`.
pub fn child_url(url: &str, name: &str) -> (r: String)
    ensures
        r@ == (if url@.len() > 0 && url@.last() == '/' {
            url@ + name@
        } else {
            url@ + "/"@ + name@
        }),
{
    let mut r = String::from_str(url);
    let n = url.unicode_len();
    if n == 0 || url.get_char(n - 1) != '/' {
        r.append("/");
    }
    r.append(name);
    r
}

} // verus!
