use vstd::prelude::*;
use crate::plan::{views, DependencyInstall, FileModification};

verus! {

/// Runs a plan against a target directory; here stand the decisions it makes.
pub struct Executor;

/// The mutation tag that the executor knows how to apply to an existing file.
pub open spec fn append_tag() -> Seq<char> {
    seq!['t', 'e', 'x', 't', '_', 'a', 'p', 'p', 'e', 'n', 'd']
}

/// `name@version`, the way the package manager names an install.
pub open spec fn package_argument(d: (Seq<char>, Seq<char>)) -> Seq<char> {
    d.0 + seq!['@'] + d.1
}

/// The arguments of one package-manager invocation for a list of installs.
pub open spec fn install_arguments_of(deps: Seq<(Seq<char>, Seq<char>)>, dev: bool) -> Seq<
    Seq<char>,
> {
    let head = if dev {
        seq![seq!['i', 'n', 's', 't', 'a', 'l', 'l'], seq!['-', '-', 's', 'a', 'v', 'e', '-', 'd', 'e', 'v']]
    } else {
        seq![seq!['i', 'n', 's', 't', 'a', 'l', 'l']]
    };
    head + deps.map_values(|d: (Seq<char>, Seq<char>)| package_argument(d))
}

/// The new content of a modified file: a missing file is created with the payload; an
/// existing one gets the payload appended under the append tag and is left alone (`None`)
/// under any other tag.
pub open spec fn modified_content_of(
    existing: Option<Seq<char>>,
    m: (Seq<char>, Seq<char>, Seq<char>),
) -> Option<Seq<char>> {
    match existing {
        None => Some(m.2),
        Some(old) => if m.1 == append_tag() {
            Some(old + m.2)
        } else {
            None
        },
    }
}

impl Executor {
    /// The arguments of the batched install of `deps`, as development dependencies when `dev`.
    pub fn install_arguments(deps: &Vec<DependencyInstall>, dev: bool) -> (r: Vec<String>)
        ensures
            views(r@) == install_arguments_of(views(deps@), dev),
    {
        let mut out: Vec<String> = Vec::new();
        out.push("install".to_owned());
        if dev {
            out.push("--save-dev".to_owned());
        }
        let ghost head = views(out@);
        proof {
            reveal_strlit("install");
            reveal_strlit("--save-dev");
            reveal_strlit("@");
            assert(head[0] =~= seq!['i', 'n', 's', 't', 'a', 'l', 'l']);
            if dev {
                assert(head[1] =~= seq!['-', '-', 's', 'a', 'v', 'e', '-', 'd', 'e', 'v']);
                assert(head =~~= seq![
                    seq!['i', 'n', 's', 't', 'a', 'l', 'l'],
                    seq!['-', '-', 's', 'a', 'v', 'e', '-', 'd', 'e', 'v'],
                ]);
            } else {
                assert(head =~~= seq![seq!['i', 'n', 's', 't', 'a', 'l', 'l']]);
            }
        }
        let ghost ds = views(deps@);
        let mut i: usize = 0;
        while i < deps.len()
            invariant
                i <= deps@.len(),
                ds == views(deps@),
                views(out@) == head + ds.take(i as int).map_values(
                    |d: (Seq<char>, Seq<char>)| package_argument(d),
                ),
            decreases deps@.len() - i,
        {
            let d = &deps[i];
            let mut arg = d.name.clone();
            arg.append("@");
            arg.append(d.version.as_str());
            proof {
                reveal_strlit("@");
            }
            let ghost before = views(out@);
            out.push(arg);
            assert(views(out@) =~= before.push(arg@));
            assert(ds.take(i + 1) =~= ds.take(i as int).push(ds[i as int]));
            assert(arg@ == package_argument(ds[i as int]));
            assert(views(out@) =~= head + ds.take(i + 1).map_values(
                |d: (Seq<char>, Seq<char>)| package_argument(d),
            ));
            i = i + 1;
        }
        assert(ds.take(i as int) =~= ds);
        out
    }

    /// The content to write for a modification of a file whose current content is
    /// `existing` (`None`: the file is missing); `None` when the modification is skipped.
    pub fn modified_content(existing: Option<String>, modification: &FileModification) -> (r:
        Option<String>)
        ensures
            match r {
                Some(c) => modified_content_of(crate::models::opt_view(existing), modification@)
                    == Some(c@),
                None => modified_content_of(crate::models::opt_view(existing), modification@)
                    is None,
            },
    {
        match existing {
            None => Some(modification.content.clone()),
            Some(old) => {
                let tag = "text_append".to_owned();
                proof {
                    reveal_strlit("text_append");
                    assert(tag@ =~= append_tag());
                }
                if modification.mutation_type == tag {
                    let mut c = old;
                    c.append(modification.content.as_str());
                    Some(c)
                } else {
                    None
                }
            },
        }
    }
}

} // verus!
