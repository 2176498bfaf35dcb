use vstd::prelude::*;
use vstd::string::*;

use crate::coordinator::joined;

verus! {

/// Features the user must allow before the assistant may use them.
#[derive(Clone, Copy, Debug, PartialEq, Eq, Structural)]
pub enum Permission {
    Clipboard,
    Location,
    Microphone,
    Screenshot,
    Tts,
}

/// The name a permission is stored and shown under.
pub open spec fn permission_name(p: Permission) -> Seq<char> {
    match p {
        Permission::Clipboard => "Clipboard"@,
        Permission::Location => "Location"@,
        Permission::Microphone => "Microphone"@,
        Permission::Screenshot => "Screenshot"@,
        Permission::Tts => "Tts"@,
    }
}

impl Permission {
    pub fn as_str(&self) -> (r: &'static str)
        ensures
            r@ == permission_name(*self),
    {
        match *self {
            Permission::Clipboard => "Clipboard",
            Permission::Location => "Location",
            Permission::Microphone => "Microphone",
            Permission::Screenshot => "Screenshot",
            Permission::Tts => "Tts",
        }
    }
}

/// Every permission, in the order the settings list them.
pub fn all_permissions() -> (r: Vec<Permission>)
    ensures
        r@ == seq![
            Permission::Clipboard,
            Permission::Location,
            Permission::Microphone,
            Permission::Screenshot,
            Permission::Tts,
        ],
{
    let mut v: Vec<Permission> = Vec::new();
    v.push(Permission::Clipboard);
    v.push(Permission::Location);
    v.push(Permission::Microphone);
    v.push(Permission::Screenshot);
    v.push(Permission::Tts);
    assert(v@ =~= seq![
        Permission::Clipboard,
        Permission::Location,
        Permission::Microphone,
        Permission::Screenshot,
        Permission::Tts,
    ]);
    v
}

/// Which permissions the user has granted.
#[derive(Clone, Copy, Debug, PartialEq, Eq, Structural)]
pub struct PermissionGrants {
    pub clipboard: bool,
    pub location: bool,
    pub microphone: bool,
    pub screenshot: bool,
    pub tts: bool,
}

pub open spec fn allows(g: PermissionGrants, p: Permission) -> bool {
    match p {
        Permission::Clipboard => g.clipboard,
        Permission::Location => g.location,
        Permission::Microphone => g.microphone,
        Permission::Screenshot => g.screenshot,
        Permission::Tts => g.tts,
    }
}

impl PermissionGrants {
    /// Nothing granted: the state of a fresh installation.
    pub fn none_granted() -> (r: PermissionGrants)
        ensures
            forall|p: Permission| !allows(r, p),
    {
        PermissionGrants {
            clipboard: false,
            location: false,
            microphone: false,
            screenshot: false,
            tts: false,
        }
    }

    pub fn is_granted(&self, p: Permission) -> (r: bool)
        ensures
            r == allows(*self, p),
    {
        match p {
            Permission::Clipboard => self.clipboard,
            Permission::Location => self.location,
            Permission::Microphone => self.microphone,
            Permission::Screenshot => self.screenshot,
            Permission::Tts => self.tts,
        }
    }
}

/// The required permissions that have not been granted, in the order required.
pub open spec fn denied(g: PermissionGrants, required: Seq<Permission>) -> Seq<Permission>
    decreases required.len(),
{
    if required.len() == 0 {
        Seq::empty()
    } else if allows(g, required.last()) {
        denied(g, required.drop_last())
    } else {
        denied(g, required.drop_last()).push(required.last())
    }
}

pub const DENIED_NOTICE: &'static str = "You MUST tell the user they need to allow access to ALL of the following features in settings: ";

/// The notice that lists the denied permissions by name.
pub open spec fn denied_notice(ds: Seq<Permission>) -> Seq<char> {
    DENIED_NOTICE@ + joined(ds.map_values(|p: Permission| permission_name(p)), ", "@)
}

/// Checks the required permissions against the grants: nothing when all are granted,
/// otherwise a notice naming every denied one.
pub fn check_permissions(grants: &PermissionGrants, required: &Vec<Permission>) -> (r: Option<
    String,
>)
    ensures
        denied(*grants, required@).len() == 0 <==> r is None,
        r matches Some(m) ==> m@ == denied_notice(denied(*grants, required@)),
{
    let mut names: Vec<&'static str> = Vec::new();
    let mut i: usize = 0;
    while i < required.len()
        invariant
            i <= required@.len(),
            names@.len() == denied(*grants, required@.take(i as int)).len(),
            forall|j: int|
                0 <= j < names@.len() ==> (#[trigger] names@[j])@ == permission_name(
                    denied(*grants, required@.take(i as int))[j],
                ),
        decreases required@.len() - i,
    {
        proof {
            assert(required@.take(i + 1).drop_last() =~= required@.take(i as int));
            assert(required@.take(i + 1).last() == required@[i as int]);
        }
        let p = required[i];
        if !grants.is_granted(p) {
            names.push(p.as_str());
        }
        i = i + 1;
    }
    proof {
        assert(required@.take(required@.len() as int) =~= required@);
    }
    if names.len() == 0 {
        return None;
    }
    let ghost ds = denied(*grants, required@);
    let mut msg = String::from_str(DENIED_NOTICE);
    let mut k: usize = 0;
    while k < names.len()
        invariant
            k <= names@.len(),
            names@.len() == ds.len(),
            forall|j: int| 0 <= j < names@.len() ==> (#[trigger] names@[j])@ == permission_name(ds[j]),
            msg@ == DENIED_NOTICE@ + joined(
                ds.take(k as int).map_values(|p: Permission| permission_name(p)),
                ", "@,
            ),
        decreases names@.len() - k,
    {
        proof {
            let cur = ds.take(k + 1).map_values(|p: Permission| permission_name(p));
            assert(cur.drop_last() =~= ds.take(k as int).map_values(|p: Permission| permission_name(p)));
            assert(cur.last() == permission_name(ds[k as int]));
        }
        if k > 0 {
            msg.append(", ");
        }
        msg.append(names[k]);
        proof {
            let cur = ds.take(k + 1).map_values(|p: Permission| permission_name(p));
            if k == 0 {
                assert(joined(cur, ", "@) == cur[0]);
                assert(msg@ =~= DENIED_NOTICE@ + joined(cur, ", "@));
            } else {
                assert(msg@ =~= DENIED_NOTICE@ + joined(cur, ", "@));
            }
        }
        k = k + 1;
    }
    proof {
        assert(ds.take(ds.len() as int) =~= ds);
    }
    Some(msg)
}

} // verus!
