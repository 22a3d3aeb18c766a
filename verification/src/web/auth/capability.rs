//! Capabilities, the OAuth groups that grant them, and the check that
//! guards a route behind one of them.
use vstd::prelude::*;

use crate::text::{chars_eq, chars_of, split_chars, split_on};
use super::User;

verus! {

/// What a user may do on the site.
#[derive(Clone, Copy, Debug, PartialEq, Eq, Structural, Hash)]
pub enum Capability {
    /// Includes all other capabilities.
    Admin,
    ManageSitzungen,
    CreateAntrag,
    /// Written `ManageAnträge` in the configuration.
    ManageAntraege,
    ManagePersons,
    ViewHidden,
    ViewProtected,
}

/// The name by which a capability is written in a `--group` option.
pub open spec fn capability_name(c: Capability) -> Seq<char> {
    match c {
        Capability::Admin => "Admin"@,
        Capability::ManageSitzungen => "ManageSitzungen"@,
        Capability::CreateAntrag => "CreateAntrag"@,
        Capability::ManageAntraege => "ManageAnträge"@,
        Capability::ManagePersons => "ManagePersons"@,
        Capability::ViewHidden => "ViewHidden"@,
        Capability::ViewProtected => "ViewProtected"@,
    }
}

/// The capability written as `s`, if any.
pub open spec fn spec_parse_capability(s: Seq<char>) -> Option<Capability> {
    if s == "Admin"@ {
        Some(Capability::Admin)
    } else if s == "ManageSitzungen"@ {
        Some(Capability::ManageSitzungen)
    } else if s == "CreateAntrag"@ {
        Some(Capability::CreateAntrag)
    } else if s == "ManageAnträge"@ {
        Some(Capability::ManageAntraege)
    } else if s == "ManagePersons"@ {
        Some(Capability::ManagePersons)
    } else if s == "ViewHidden"@ {
        Some(Capability::ViewHidden)
    } else if s == "ViewProtected"@ {
        Some(Capability::ViewProtected)
    } else {
        None
    }
}

/// Reads a capability name.
pub fn parse_capability(s: &Vec<char>) -> (r: Option<Capability>)
    ensures
        r == spec_parse_capability(s@),
{
    if chars_eq(s, &chars_of("Admin")) {
        Some(Capability::Admin)
    } else if chars_eq(s, &chars_of("ManageSitzungen")) {
        Some(Capability::ManageSitzungen)
    } else if chars_eq(s, &chars_of("CreateAntrag")) {
        Some(Capability::CreateAntrag)
    } else if chars_eq(s, &chars_of("ManageAnträge")) {
        Some(Capability::ManageAntraege)
    } else if chars_eq(s, &chars_of("ManagePersons")) {
        Some(Capability::ManagePersons)
    } else if chars_eq(s, &chars_of("ViewHidden")) {
        Some(Capability::ViewHidden)
    } else if chars_eq(s, &chars_of("ViewProtected")) {
        Some(Capability::ViewProtected)
    } else {
        None
    }
}

/// Every capability is read back from its own name.
pub proof fn lemma_parse_capability_name(c: Capability)
    ensures
        spec_parse_capability(capability_name(c)) == Some(c),
{
    reveal_strlit("Admin");
    reveal_strlit("ManageSitzungen");
    reveal_strlit("CreateAntrag");
    reveal_strlit("ManageAnträge");
    reveal_strlit("ManagePersons");
    reveal_strlit("ViewHidden");
    reveal_strlit("ViewProtected");
    assert("Admin"@.len() == 5);
    assert("ManageSitzungen"@.len() == 15);
    assert("CreateAntrag"@.len() == 12);
    assert("ManageAnträge"@.len() == 13);
    assert("ManagePersons"@.len() == 13);
    assert("ViewHidden"@.len() == 10);
    assert("ViewProtected"@.len() == 13);
    assert("ManageAnträge"@[6] != "ManagePersons"@[6]);
    assert("ManageAnträge"@[0] != "ViewProtected"@[0]);
    assert("ManagePersons"@[0] != "ViewProtected"@[0]);
}

/// The `--group` options as plain text: role name and comma separated
/// capability names.
pub open spec fn groups_view(groups: Seq<(String, String)>) -> Seq<(Seq<char>, Seq<char>)> {
    groups.map_values(|g: (String, String)| (g.0@, g.1@))
}

/// The (role, capability name) pairs that one `--group` option lists.
pub open spec fn group_pieces(group: (Seq<char>, Seq<char>)) -> Seq<(Seq<char>, Seq<char>)> {
    split_on(group.1, ',').map_values(|p: Seq<char>| (group.0, p))
}

/// The (role, capability name) pairs that all options list, in order.
pub open spec fn all_pieces(groups: Seq<(Seq<char>, Seq<char>)>) -> Seq<(Seq<char>, Seq<char>)>
    decreases groups.len(),
{
    if groups.len() == 0 {
        Seq::empty()
    } else {
        all_pieces(groups.drop_last()) + group_pieces(groups.last())
    }
}

/// Whether every listed capability name is known.
pub open spec fn all_pieces_parse(pieces: Seq<(Seq<char>, Seq<char>)>) -> bool {
    forall|k: int| 0 <= k < pieces.len() ==> (#[trigger] spec_parse_capability(pieces[k].1)) is Some
}

/// The grants that the listed pairs stand for.
pub open spec fn pieces_grants(pieces: Seq<(Seq<char>, Seq<char>)>) -> Seq<(Seq<char>, Capability)> {
    pieces.map_values(|p: (Seq<char>, Seq<char>)| (p.0, spec_parse_capability(p.1).unwrap()))
}

/// Which roles hold which capabilities.
pub struct CapabilitySet {
    grants: Vec<(String, Capability)>,
}

impl View for CapabilitySet {
    type V = Seq<(Seq<char>, Capability)>;

    closed spec fn view(&self) -> Seq<(Seq<char>, Capability)> {
        self.grants@.map_values(|g: (String, Capability)| (g.0@, g.1))
    }
}

/// `role` is granted `cap`.
pub open spec fn spec_grants_role(grants: Seq<(Seq<char>, Capability)>, role: Seq<char>, cap: Capability) -> bool {
    exists|k: int| 0 <= k < grants.len() && grants[k] == (role, cap)
}

/// One of `groups` is granted `cap`.
pub open spec fn spec_allows(grants: Seq<(Seq<char>, Capability)>, groups: Seq<Seq<char>>, cap: Capability) -> bool {
    exists|i: int| 0 <= i < groups.len() && spec_grants_role(grants, groups[i], cap)
}

/// A member of `groups` may use `cap`: one of the groups holds `cap`, or
/// holds `Admin`, which includes all other capabilities.
pub open spec fn spec_has_capability(grants: Seq<(Seq<char>, Capability)>, groups: Seq<Seq<char>>, cap: Capability) -> bool {
    spec_allows(grants, groups, cap) || spec_allows(grants, groups, Capability::Admin)
}

impl CapabilitySet {
    /// Reads the `--group role=Cap1,Cap2` options, each given as the role
    /// and the comma separated capability names. Fails with the first name
    /// that is not a capability.
    pub fn from_groups(groups: &Vec<(String, String)>) -> (r: Result<CapabilitySet, String>)
        ensures
            ({
                let pieces = all_pieces(groups_view(groups@));
                match r {
                    Ok(set) => all_pieces_parse(pieces) && set@ == pieces_grants(pieces),
                    Err(name) => exists|k: int|
                        0 <= k < pieces.len() && spec_parse_capability(pieces[k].1) is None
                            && name@ == pieces[k].1 && all_pieces_parse(pieces.take(k)),
                }
            }),
    {
        let ghost gv = groups_view(groups@);
        let mut grants: Vec<(String, Capability)> = Vec::new();
        for i in 0..groups.len()
            invariant
                gv == groups_view(groups@),
                all_pieces_parse(all_pieces(gv.take(i as int))),
                grants@.map_values(|g: (String, Capability)| (g.0@, g.1))
                    == pieces_grants(all_pieces(gv.take(i as int))),
        {
            let role = &groups[i].0;
            let names = split_chars(&chars_of(groups[i].1.as_str()), ',');
            let ghost before = all_pieces(gv.take(i as int));
            let ghost gp = group_pieces(gv[i as int]);
            proof {
                assert(gv.take(i + 1).drop_last() == gv.take(i as int));
                assert(gv.take(i + 1).last() == gv[i as int]);
                assert(all_pieces(gv.take(i + 1)) == before + gp);
            }
            for j in 0..names.len()
                invariant
                    gv == groups_view(groups@),
                    0 <= i < groups@.len(),
                    role == &groups@[i as int].0,
                    gp == group_pieces(gv[i as int]),
                    before == all_pieces(gv.take(i as int)),
                    all_pieces(gv.take(i + 1)) == before + gp,
                    names@.len() == gp.len(),
                    forall|k: int| 0 <= k < names@.len() ==> #[trigger] names@[k]@ == gp[k].1,
                    all_pieces_parse(before + gp.take(j as int)),
                    grants@.map_values(|g: (String, Capability)| (g.0@, g.1))
                        == pieces_grants(before + gp.take(j as int)),
            {
                proof {
                    assert(gp[j as int].0 == role@);
                }
                match parse_capability(&names[j]) {
                    Some(cap) => {
                        let ghost old_grants = grants@;
                        grants.push((role.clone(), cap));
                        proof {
                            assert(before + gp.take(j + 1) == (before + gp.take(j as int)).push(gp[j as int]));
                            assert(grants@.map_values(|g: (String, Capability)| (g.0@, g.1))
                                =~= old_grants.map_values(|g: (String, Capability)| (g.0@, g.1)).push((role@, cap)));
                            let ps = before + gp.take(j + 1);
                            assert forall|k: int| 0 <= k < ps.len() implies (#[trigger] spec_parse_capability(ps[k].1)) is Some by {
                                if k < ps.len() - 1 {
                                    assert(ps[k] == (before + gp.take(j as int))[k]);
                                }
                            }
                            assert(pieces_grants(ps) =~= pieces_grants(before + gp.take(j as int)).push((role@, cap)));
                        }
                    },
                    None => {
                        proof {
                            let pieces = all_pieces(gv);
                            lemma_all_pieces_prefix(gv, i + 1);
                            let k = before.len() + j;
                            let m = all_pieces(gv.take(i + 1)).len() as int;
                            assert(pieces.take(m) == before + gp);
                            assert(pieces.take(m)[k] == pieces[k]);
                            assert((before + gp)[k] == gp[j as int]);
                            assert(pieces[k] == gp[j as int]);
                            assert(pieces.take(k) =~= before + gp.take(j as int)) by {
                                assert forall|x: int| 0 <= x < k implies pieces.take(k)[x] == (before + gp.take(j as int))[x] by {
                                    assert(pieces.take(m)[x] == pieces[x]);
                                }
                            }
                            assert(groups_view(groups@) == gv);
                        }
                        let mut name = String::new();
                        let n = &names[j];
                        for t in 0..n.len()
                            invariant
                                name@ == n@.take(t as int),
                        {
                            name.push(n[t]);
                            assert(n@.take(t + 1) == n@.take(t as int).push(n@[t as int]));
                        }
                        assert(n@.take(n@.len() as int) == n@);
                        return Err(name);
                    },
                }
            }
            proof {
                assert(gp.take(gp.len() as int) == gp);
            }
        }
        proof {
            assert(gv.take(gv.len() as int) == gv);
        }
        Ok(CapabilitySet { grants })
    }

    /// Whether one of `groups` holds `cap` itself.
    pub fn allows(&self, groups: &Vec<String>, cap: Capability) -> (r: bool)
        ensures
            r == spec_allows(self@, groups@.map_values(|g: String| g@), cap),
    {
        let ghost gs = groups@.map_values(|g: String| g@);
        for i in 0..groups.len()
            invariant
                gs == groups@.map_values(|g: String| g@),
                forall|a: int| 0 <= a < i ==> !spec_grants_role(self@, #[trigger] gs[a], cap),
        {
            for k in 0..self.grants.len()
                invariant
                    0 <= i < groups@.len(),
                    gs == groups@.map_values(|g: String| g@),
                    forall|b: int| 0 <= b < k ==> self@[b] != (gs[i as int], cap),
            {
                if self.grants[k].0 == groups[i] && self.grants[k].1 == cap {
                    assert(self@[k as int] == (gs[i as int], cap));
                    return true;
                }
            }
        }
        false
    }

    /// Whether a member of `groups` may use `cap`.
    pub fn has_capability(&self, groups: &Vec<String>, cap: Capability) -> (r: bool)
        ensures
            r == spec_has_capability(self@, groups@.map_values(|g: String| g@), cap),
    {
        self.allows(groups, cap) || self.allows(groups, Capability::Admin)
    }
}

/// The pairs of the first `n` options are a prefix of all pairs.
pub proof fn lemma_all_pieces_prefix(groups: Seq<(Seq<char>, Seq<char>)>, n: int)
    requires
        0 <= n <= groups.len(),
    ensures
        all_pieces(groups.take(n)).len() <= all_pieces(groups).len(),
        all_pieces(groups).take(all_pieces(groups.take(n)).len() as int) == all_pieces(groups.take(n)),
    decreases groups.len() - n,
{
    if n < groups.len() {
        lemma_all_pieces_prefix(groups, n + 1);
        assert(groups.take(n + 1).drop_last() == groups.take(n));
        let a = all_pieces(groups.take(n));
        let b = all_pieces(groups.take(n + 1));
        assert(b.take(a.len() as int) == a);
        assert(all_pieces(groups).take(a.len() as int) == b.take(a.len() as int));
    } else {
        assert(groups.take(n) == groups);
    }
}

/// Option `i` lists the capability name `name` for role `role`.
pub open spec fn listed(groups: Seq<(Seq<char>, Seq<char>)>, role: Seq<char>, name: Seq<char>) -> bool {
    exists|i: int, j: int|
        0 <= i < groups.len() && 0 <= j < split_on(groups[i].1, ',').len() && groups[i].0 == role
            && #[trigger] split_on(groups[i].1, ',')[j] == name
}

/// The flattened pairs are exactly the listed ones.
proof fn lemma_all_pieces_members(groups: Seq<(Seq<char>, Seq<char>)>, role: Seq<char>, name: Seq<char>)
    ensures
        (exists|k: int| 0 <= k < all_pieces(groups).len() && #[trigger] all_pieces(groups)[k] == (role, name))
            <==> listed(groups, role, name),
    decreases groups.len(),
{
    if groups.len() > 0 {
        let d = groups.drop_last();
        let g = groups.last();
        let a = all_pieces(d);
        let b = group_pieces(g);
        let all = all_pieces(groups);
        lemma_all_pieces_members(d, role, name);
        if exists|k: int| 0 <= k < all.len() && #[trigger] all[k] == (role, name) {
            let k = choose|k: int| 0 <= k < all.len() && #[trigger] all[k] == (role, name);
            if k < a.len() {
                assert(all[k] == a[k]);
                let (i, j) = choose|i: int, j: int|
                    0 <= i < d.len() && 0 <= j < split_on(d[i].1, ',').len() && d[i].0 == role
                        && #[trigger] split_on(d[i].1, ',')[j] == name;
                assert(groups[i] == d[i]);
                assert(split_on(groups[i].1, ',')[j] == name);
            } else {
                let j = k - a.len();
                assert(all[k] == b[j]);
                let i = groups.len() - 1;
                assert(groups[i] == g);
                assert(split_on(groups[i].1, ',')[j] == name);
            }
        }
        if listed(groups, role, name) {
            let (i, j) = choose|i: int, j: int|
                0 <= i < groups.len() && 0 <= j < split_on(groups[i].1, ',').len() && groups[i].0 == role
                    && #[trigger] split_on(groups[i].1, ',')[j] == name;
            if i < groups.len() - 1 {
                assert(d[i] == groups[i]);
                assert(split_on(d[i].1, ',')[j] == name);
                assert(listed(d, role, name));
                let k = choose|k: int| 0 <= k < a.len() && #[trigger] a[k] == (role, name);
                assert(all[k] == a[k]);
            } else {
                assert(g == groups[i]);
                assert(b[j] == (role, name));
                assert(all[a.len() + j] == b[j]);
            }
        }
    }
}

/// A role holds a capability exactly when one of its `--group` options
/// lists that capability's name.
pub proof fn lemma_grants_are_listed(groups: Seq<(Seq<char>, Seq<char>)>, role: Seq<char>, cap: Capability)
    requires
        all_pieces_parse(all_pieces(groups)),
    ensures
        spec_grants_role(pieces_grants(all_pieces(groups)), role, cap)
            <==> listed(groups, role, capability_name(cap)),
{
    let all = all_pieces(groups);
    let gr = pieces_grants(all);
    lemma_parse_capability_name(cap);
    lemma_all_pieces_members(groups, role, capability_name(cap));
    if spec_grants_role(gr, role, cap) {
        let k = choose|k: int| 0 <= k < gr.len() && gr[k] == (role, cap);
        assert(gr[k] == (all[k].0, spec_parse_capability(all[k].1).unwrap()));
        assert(spec_parse_capability(all[k].1) is Some);
        lemma_parse_is_name(all[k].1);
        assert(all[k] == (role, capability_name(cap)));
    }
    if listed(groups, role, capability_name(cap)) {
        let k = choose|k: int| 0 <= k < all.len() && #[trigger] all[k] == (role, capability_name(cap));
        assert(gr[k] == (role, cap));
    }
}

/// A known name is the name of the capability it stands for.
proof fn lemma_parse_is_name(s: Seq<char>)
    ensures
        spec_parse_capability(s) matches Some(c) ==> s == capability_name(c),
{
}

/// Admin includes all other capabilities: whoever is in a group that holds
/// Admin may use every capability.
pub proof fn lemma_admin_has_every_capability(
    grants: Seq<(Seq<char>, Capability)>,
    groups: Seq<Seq<char>>,
    cap: Capability,
)
    requires
        spec_allows(grants, groups, Capability::Admin),
    ensures
        spec_has_capability(grants, groups, cap),
{
}

/// A capability is allowed exactly where some group of the user, at any
/// place in the user's list, is listed with it among the grants.
pub proof fn lemma_allows_any_group(
    grants: Seq<(Seq<char>, Capability)>,
    groups: Seq<Seq<char>>,
    cap: Capability,
)
    ensures
        spec_allows(grants, groups, cap) <==> exists|i: int, k: int|
            0 <= i < groups.len() && 0 <= k < grants.len() && #[trigger] grants[k] == (#[trigger] groups[i], cap),
{
    if exists|i: int, k: int| 0 <= i < groups.len() && 0 <= k < grants.len() && #[trigger] grants[k] == (#[trigger] groups[i], cap) {
        let (i, k) = choose|i: int, k: int|
            0 <= i < groups.len() && 0 <= k < grants.len() && #[trigger] grants[k] == (#[trigger] groups[i], cap);
        assert(spec_grants_role(grants, groups[i], cap));
    }
    if spec_allows(grants, groups, cap) {
        let i = choose|i: int| 0 <= i < groups.len() && spec_grants_role(grants, groups[i], cap);
        let k = choose|k: int| 0 <= k < grants.len() && grants[k] == (groups[i], cap);
        assert(grants[k] == (groups[i], cap));
    }
}

/// A user may use a capability exactly where some group of the user, at any
/// place in the user's list, is granted it or `Admin`.
pub proof fn lemma_has_capability_any_group(
    grants: Seq<(Seq<char>, Capability)>,
    groups: Seq<Seq<char>>,
    cap: Capability,
)
    ensures
        spec_has_capability(grants, groups, cap) <==> exists|i: int, k: int|
            0 <= i < groups.len() && 0 <= k < grants.len() && (#[trigger] grants[k] == (#[trigger] groups[i], cap)
                || grants[k] == (groups[i], Capability::Admin)),
{
    lemma_allows_any_group(grants, groups, cap);
    lemma_allows_any_group(grants, groups, Capability::Admin);
}

/// A user without groups holds no capability, whatever the grants.
pub proof fn lemma_no_groups_no_capability(grants: Seq<(Seq<char>, Capability)>, cap: Capability)
    ensures
        !spec_has_capability(grants, Seq::empty(), cap),
{
}

/// Whether a guarded route lets the request through.
#[derive(Clone, Copy, Debug, PartialEq, Eq, Structural)]
pub enum GateDecision {
    /// The request goes on to the handler.
    Forward,
    /// The request is answered with 401 Unauthorized.
    Unauthorized,
}


/// Lets a request through to a route guarded by `cap`: only a present user
/// who may use `cap`; an anonymous request counts as a user without groups.
pub fn capability_gate(user: Option<&User>, caps: &CapabilitySet, cap: Capability) -> (r: GateDecision)
    ensures
        (r == GateDecision::Forward) <==> (user matches Some(u) && spec_has_capability(caps@, u.group_names(), cap)),
{
    match user {
        Some(u) => if u.has_capability(caps, cap) {
            GateDecision::Forward
        } else {
            GateDecision::Unauthorized
        },
        None => GateDecision::Unauthorized,
    }
}

} // verus!
