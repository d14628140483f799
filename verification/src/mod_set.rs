//! The mod-set resolution engine.

use crate::config::{CommandView, GameConfigView, ModSetConfig, ModSetConfigView, GameConfig, spec_find, strs_view};
use crate::env_map::EnvMap;
use crate::external_command::ExternalCommand;
use vstd::prelude::*;

verus! {

/// One resolved member of a set: a leaf mod folder or a nested set.
pub enum Member {
    /// A leaf mod folder under the mod root.
    Leaf(String),
    /// A nested set, resolved from the configuration.
    Child(String, Box<ModSet>),
}

/// A resolved, immutable mod-set tree.
pub struct ModSet {
    /// The resolved members, in configured order.
    pub members: Vec<Member>,
    /// The resolved shared command, if one is named.
    pub command: Option<ExternalCommand>,
    /// This set's own writable flag.
    pub writable: bool,
    /// This set's own run-pre-commands flag.
    pub run_pre_command: bool,
    /// This set's own environment variables.
    pub environment: EnvMap,
}

/// Spec-level image of a resolved member.
pub enum MemberView {
    Leaf { name: Seq<char> },
    Child { name: Seq<char>, set: Box<ModSetView> },
}

/// Spec-level image of a resolved mod-set tree.
pub struct ModSetView {
    pub members: Seq<MemberView>,
    pub command: Option<CommandView>,
    pub writable: bool,
    pub run_pre_command: bool,
    pub environment: Map<Seq<char>, Seq<char>>,
}

/// The image of one member.
pub open spec fn member_view(m: Member) -> MemberView
    decreases m,
{
    match m {
        Member::Leaf(name) => MemberView::Leaf { name: name@ },
        Member::Child(name, set) => MemberView::Child {
            name: name@,
            set: Box::new(mod_set_view(*set)),
        },
    }
}

/// The image of a member list, in order.
pub open spec fn members_view(ms: Seq<Member>) -> Seq<MemberView>
    decreases ms,
{
    if ms.len() == 0 {
        Seq::empty()
    } else {
        members_view(ms.drop_last()).push(member_view(ms.last()))
    }
}

/// The image of one tree.
pub open spec fn mod_set_view(s: ModSet) -> ModSetView
    decreases s,
{
    ModSetView {
        members: members_view(s.members@),
        command: match s.command {
            Some(c) => Some(c@),
            None => None,
        },
        writable: s.writable,
        run_pre_command: s.run_pre_command,
        environment: s.environment@,
    }
}

/// `members_view` maps the list element for element.
pub proof fn lemma_members_view_index(ms: Seq<Member>)
    ensures
        members_view(ms).len() == ms.len(),
        forall|i: int| 0 <= i < ms.len() ==> members_view(ms)[i] == member_view(ms[i]),
    decreases ms,
{
    if ms.len() > 0 {
        lemma_members_view_index(ms.drop_last());
    }
}

/// The name a member contributes to its parent's member list.
pub open spec fn spec_member_name(m: MemberView) -> Seq<char> {
    match m {
        MemberView::Leaf { name } => name,
        MemberView::Child { name, .. } => name,
    }
}

/// Whether this member is a nested set that aggregates as writable.
pub open spec fn spec_member_writable(m: MemberView) -> bool
    decreases m,
{
    match m {
        MemberView::Leaf { .. } => false,
        MemberView::Child { set, .. } => spec_writable(*set),
    }
}

/// Whether any member of `ms` aggregates as writable.
pub open spec fn spec_any_writable(ms: Seq<MemberView>) -> bool
    decreases ms,
{
    if ms.len() == 0 {
        false
    } else {
        spec_any_writable(ms.drop_last()) || spec_member_writable(ms.last())
    }
}

/// The tree-wide OR of the writable flag: a set mounts writable when its own
/// flag is set or when any descendant's is.
pub open spec fn spec_writable(v: ModSetView) -> bool
    decreases v,
{
    v.writable || spec_any_writable(v.members)
}

/// Whether this member is a nested set that aggregates as running
/// pre-commands.
pub open spec fn spec_member_pre(m: MemberView) -> bool
    decreases m,
{
    match m {
        MemberView::Leaf { .. } => false,
        MemberView::Child { set, .. } => spec_run_pre(*set),
    }
}

/// Whether any member of `ms` aggregates as running pre-commands.
pub open spec fn spec_any_pre(ms: Seq<MemberView>) -> bool
    decreases ms,
{
    if ms.len() == 0 {
        false
    } else {
        spec_any_pre(ms.drop_last()) || spec_member_pre(ms.last())
    }
}

/// The tree-wide OR of the run-pre-commands flag.
pub open spec fn spec_run_pre(v: ModSetView) -> bool
    decreases v,
{
    v.run_pre_command || spec_any_pre(v.members)
}

/// Whether this member is a nested set whose tree mentions `id`.
pub open spec fn spec_member_contains(m: MemberView, id: Seq<char>) -> bool
    decreases m,
{
    match m {
        MemberView::Leaf { .. } => false,
        MemberView::Child { set, .. } => spec_contains(*set, id),
    }
}

/// Whether any member of `ms` is a nested set whose tree mentions `id`.
pub open spec fn spec_any_contains(ms: Seq<MemberView>, id: Seq<char>) -> bool
    decreases ms,
{
    if ms.len() == 0 {
        false
    } else {
        spec_any_contains(ms.drop_last(), id) || spec_member_contains(ms.last(), id)
    }
}

/// Whether `id` is a direct member name of this set or of any descendant.
pub open spec fn spec_contains(v: ModSetView, id: Seq<char>) -> bool
    decreases v,
{
    (exists|i: int|
        0 <= i < v.members.len() && spec_member_name(#[trigger] v.members[i]) == id)
        || spec_any_contains(v.members, id)
}

/// The merged environment of `ms` folded left to right onto `acc`: each
/// nested set's merged environment is merged in member order, matching keys
/// overwritten by the later (deeper) value.
pub open spec fn spec_env_members(
    ms: Seq<MemberView>,
    acc: Map<Seq<char>, Seq<char>>,
) -> Map<Seq<char>, Seq<char>>
    decreases ms,
{
    if ms.len() == 0 {
        acc
    } else {
        let prev = spec_env_members(ms.drop_last(), acc);
        match ms.last() {
            MemberView::Leaf { .. } => prev,
            MemberView::Child { set, .. } => prev.union_prefer_right(spec_env(*set)),
        }
    }
}

/// The merged environment of a tree: the set's own variables, then each
/// nested member's merged environment in member order, later values winning
/// on key collisions.
pub open spec fn spec_env(v: ModSetView) -> Map<Seq<char>, Seq<char>>
    decreases v,
{
    spec_env_members(v.members, v.environment)
}

impl ModSet {
    /// Tree-wide OR: this set's own writable flag, or any descendant's.
    pub fn should_be_writable(&self) -> (r: bool)
        ensures
            r == spec_writable(self@),
        decreases *self,
    {
        if self.writable {
            return true;
        }
        let len = self.members.len();
        let mut i: usize = 0;
        proof {
            lemma_members_view_index(self.members@);
        }
        while i < len
            invariant
                len == self.members@.len(),
                i <= len,
                members_view(self.members@).len() == len,
                forall|j: int|
                    0 <= j < len ==> members_view(self.members@)[j] == member_view(
                        self.members@[j],
                    ),
                !spec_any_writable(members_view(self.members@).take(i as int)),
            decreases len - i,
        {
            let found = match &self.members[i] {
                Member::Leaf(_) => false,
                Member::Child(_, set) => set.should_be_writable(),
            };
            proof {
                assert(found == spec_member_writable(members_view(self.members@)[i as int]));
            }
            if found {
                proof {
                    lemma_any_true(members_view(self.members@), i as int, AnyKind::Writable);
                }
                return true;
            }
            proof {
                let mv = members_view(self.members@);
                assert(mv.take(i + 1 as int).drop_last() =~= mv.take(i as int));
                assert(mv.take(i + 1 as int).last() == mv[i as int]);
            }
            i = i + 1;
        }
        proof {
            assert(members_view(self.members@).take(len as int) =~= members_view(self.members@));
        }
        false
    }

    /// Tree-wide OR: this set's own run-pre-commands flag, or any
    /// descendant's.
    pub fn should_run_pre_commands(&self) -> (r: bool)
        ensures
            r == spec_run_pre(self@),
        decreases *self,
    {
        if self.run_pre_command {
            return true;
        }
        let len = self.members.len();
        let mut i: usize = 0;
        proof {
            lemma_members_view_index(self.members@);
        }
        while i < len
            invariant
                len == self.members@.len(),
                i <= len,
                members_view(self.members@).len() == len,
                forall|j: int|
                    0 <= j < len ==> members_view(self.members@)[j] == member_view(
                        self.members@[j],
                    ),
                !spec_any_pre(members_view(self.members@).take(i as int)),
            decreases len - i,
        {
            let found = match &self.members[i] {
                Member::Leaf(_) => false,
                Member::Child(_, set) => set.should_run_pre_commands(),
            };
            proof {
                assert(found == spec_member_pre(members_view(self.members@)[i as int]));
            }
            if found {
                proof {
                    lemma_any_true(members_view(self.members@), i as int, AnyKind::Pre);
                }
                return true;
            }
            proof {
                let mv = members_view(self.members@);
                assert(mv.take(i + 1 as int).drop_last() =~= mv.take(i as int));
                assert(mv.take(i + 1 as int).last() == mv[i as int]);
            }
            i = i + 1;
        }
        proof {
            assert(members_view(self.members@).take(len as int) =~= members_view(self.members@));
        }
        false
    }

    /// Whether `id` appears in this set's direct member list or anywhere in a
    /// descendant's.
    pub fn contains(&self, id: String) -> (r: bool)
        ensures
            r == spec_contains(self@, id@),
        decreases *self,
    {
        let len = self.members.len();
        proof {
            lemma_members_view_index(self.members@);
        }
        let mut i: usize = 0;
        while i < len
            invariant
                len == self.members@.len(),
                i <= len,
                members_view(self.members@).len() == len,
                forall|j: int|
                    0 <= j < len ==> members_view(self.members@)[j] == member_view(
                        self.members@[j],
                    ),
                forall|j: int|
                    0 <= j < i ==> spec_member_name(#[trigger] members_view(self.members@)[j])
                        != id@,
            decreases len - i,
        {
            let name = match &self.members[i] {
                Member::Leaf(n) => n,
                Member::Child(n, _) => n,
            };
            if *name == id {
                proof {
                    assert(spec_member_name(members_view(self.members@)[i as int]) == id@);
                }
                return true;
            }
            i = i + 1;
        }
        let mut i: usize = 0;
        while i < len
            invariant
                len == self.members@.len(),
                i <= len,
                members_view(self.members@).len() == len,
                forall|j: int|
                    0 <= j < len ==> members_view(self.members@)[j] == member_view(
                        self.members@[j],
                    ),
                forall|j: int|
                    0 <= j < len ==> spec_member_name(#[trigger] members_view(self.members@)[j])
                        != id@,
                !spec_any_contains(members_view(self.members@).take(i as int), id@),
            decreases len - i,
        {
            let found = match &self.members[i] {
                Member::Leaf(_) => false,
                Member::Child(_, set) => set.contains(id.clone()),
            };
            proof {
                assert(found == spec_member_contains(members_view(self.members@)[i as int], id@));
            }
            if found {
                proof {
                    lemma_any_contains_true(members_view(self.members@), i as int, id@);
                }
                return true;
            }
            proof {
                let mv = members_view(self.members@);
                assert(mv.take(i + 1 as int).drop_last() =~= mv.take(i as int));
                assert(mv.take(i + 1 as int).last() == mv[i as int]);
            }
            i = i + 1;
        }
        proof {
            assert(members_view(self.members@).take(len as int) =~= members_view(self.members@));
        }
        false
    }

    /// The merged environment of the tree: this set's own variables, then
    /// each nested member's merged environment in member order; on a key
    /// collision the later (deeper) value wins.
    pub fn get_environment(&self) -> (r: EnvMap)
        ensures
            r@ == spec_env(self@),
        decreases *self,
    {
        let mut env = self.environment.clone();
        let len = self.members.len();
        proof {
            lemma_members_view_index(self.members@);
        }
        let mut i: usize = 0;
        while i < len
            invariant
                len == self.members@.len(),
                i <= len,
                members_view(self.members@).len() == len,
                forall|j: int|
                    0 <= j < len ==> members_view(self.members@)[j] == member_view(
                        self.members@[j],
                    ),
                env@ == spec_env_members(
                    members_view(self.members@).take(i as int),
                    self.environment@,
                ),
            decreases len - i,
        {
            match &self.members[i] {
                Member::Leaf(_) => {},
                Member::Child(_, set) => {
                    let child_env = set.get_environment();
                    env.merge_from(&child_env);
                },
            }
            proof {
                let mv = members_view(self.members@);
                assert(mv.take(i + 1 as int).drop_last() =~= mv.take(i as int));
                assert(mv.take(i + 1 as int).last() == mv[i as int]);
            }
            i = i + 1;
        }
        proof {
            assert(members_view(self.members@).take(len as int) =~= members_view(self.members@));
        }
        env
    }
}

/// One overlay layer entry for a leaf folder: the folder's path under the
/// mod root, with the mount-option delimiter escaped.
pub open spec fn spec_mount_entry(root: Seq<char>, name: Seq<char>) -> Seq<char> {
    crate::strutil::spec_escaped(crate::strutil::spec_joined(root, name))
}

/// The accumulated mount string after walking `ms` in order, starting from
/// `acc`: a nested set contributes its whole sub-stack before the walk goes
/// on to the next sibling; a leaf appends one `,lowerdir+=` entry unless its
/// exact text already occurs in the accumulated string.
pub open spec fn spec_mount_members(ms: Seq<MemberView>, root: Seq<char>, acc: Seq<char>) -> Seq<
    char,
>
    decreases ms,
{
    if ms.len() == 0 {
        acc
    } else {
        let prev = spec_mount_members(ms.drop_last(), root, acc);
        match ms.last() {
            MemberView::Leaf { name } => {
                let entry = spec_mount_entry(root, name);
                if crate::strutil::spec_contains_sub(prev, entry) {
                    prev
                } else {
                    prev + ",lowerdir+="@ + entry
                }
            },
            MemberView::Child { set, .. } => spec_mount_set(*set, root, prev),
        }
    }
}

/// The accumulated mount string after walking one tree depth-first,
/// pre-order, starting from `acc`.
pub open spec fn spec_mount_set(v: ModSetView, root: Seq<char>, acc: Seq<char>) -> Seq<char>
    decreases v,
{
    spec_mount_members(v.members, root, acc)
}

/// A command's identity: its executable, the first argument.
pub open spec fn spec_cmd_id(c: CommandView) -> Seq<char> {
    c.command[0]
}

/// Whether some command in `list` already has the identity `id`.
pub open spec fn spec_has_id(list: Seq<CommandView>, id: Seq<char>) -> bool {
    exists|i: int| 0 <= i < list.len() && spec_cmd_id(#[trigger] list[i]) == id
}

/// The command list after walking `ms` in order, starting from `acc`.
pub open spec fn spec_commands_members(ms: Seq<MemberView>, acc: Seq<CommandView>) -> Seq<
    CommandView,
>
    decreases ms,
{
    if ms.len() == 0 {
        acc
    } else {
        let prev = spec_commands_members(ms.drop_last(), acc);
        match ms.last() {
            MemberView::Leaf { .. } => prev,
            MemberView::Child { set, .. } => spec_commands_set(*set, prev),
        }
    }
}

/// The command list after collecting one tree, children before self: each
/// nested member's commands are appended first, in member order, then this
/// set's own command — unless a command with the same identity is already
/// present.
pub open spec fn spec_commands_set(v: ModSetView, acc: Seq<CommandView>) -> Seq<CommandView>
    decreases v,
{
    let with_children = spec_commands_members(v.members, acc);
    match v.command {
        Some(c) => if spec_has_id(with_children, spec_cmd_id(c)) {
            with_children
        } else {
            with_children.push(c)
        },
        None => with_children,
    }
}

/// Every command in the list has a non-empty argument vector.
pub open spec fn spec_cmds_wf(s: Seq<CommandView>) -> bool {
    forall|i: int| 0 <= i < s.len() ==> (#[trigger] s[i]).command.len() > 0
}

/// Whether a member is well-formed: a nested set's tree is.
pub open spec fn spec_member_wf(m: MemberView) -> bool
    decreases m,
{
    match m {
        MemberView::Leaf { .. } => true,
        MemberView::Child { set, .. } => spec_set_wf(*set),
    }
}

/// Whether every member of `ms` is well-formed.
pub open spec fn spec_members_wf(ms: Seq<MemberView>) -> bool
    decreases ms,
{
    if ms.len() == 0 {
        true
    } else {
        spec_members_wf(ms.drop_last()) && spec_member_wf(ms.last())
    }
}

/// A well-formed tree: every resolved command, here and below, has a
/// non-empty argument vector. Construction establishes this.
pub open spec fn spec_set_wf(v: ModSetView) -> bool
    decreases v,
{
    (match v.command {
        Some(c) => c.command.len() > 0,
        None => true,
    }) && spec_members_wf(v.members)
}

/// Well-formedness of a member list carries to each member.
pub proof fn lemma_members_wf_index(ms: Seq<MemberView>, i: int)
    requires
        spec_members_wf(ms),
        0 <= i < ms.len(),
    ensures
        spec_member_wf(ms[i]),
    decreases ms,
{
    if i < ms.len() - 1 {
        assert(ms.drop_last()[i] == ms[i]);
        lemma_members_wf_index(ms.drop_last(), i);
    }
}

/// The spec-level image of a command list.
pub open spec fn cmds_view(s: Seq<ExternalCommand>) -> Seq<CommandView> {
    s.map_values(|c: ExternalCommand| c@)
}

/// Whether some command in `list` already has the identity `id`.
fn has_command_with_id(list: &Vec<ExternalCommand>, id: &String) -> (r: bool)
    requires
        spec_cmds_wf(cmds_view(list@)),
    ensures
        r == spec_has_id(cmds_view(list@), id@),
{
    let len = list.len();
    let mut i: usize = 0;
    while i < len
        invariant
            spec_cmds_wf(cmds_view(list@)),
            len == list@.len(),
            i <= len,
            forall|j: int| 0 <= j < i ==> spec_cmd_id(#[trigger] cmds_view(list@)[j]) != id@,
        decreases len - i,
    {
        proof {
            assert(cmds_view(list@)[i as int] == list@[i as int]@);
        }
        if *list[i].get_id() == *id {
            proof {
                assert(spec_cmd_id(cmds_view(list@)[i as int]) == id@);
            }
            return true;
        }
        i = i + 1;
    }
    false
}

impl ModSet {
    /// Append this tree's overlay layer entries to `mount_string`:
    /// depth-first, pre-order over the member list, one `,lowerdir+=` entry
    /// per leaf folder, skipped when the entry's exact text already occurs in
    /// the accumulated string. Order is significant: later entries take
    /// precedence in the overlay.
    pub fn get_mount_string(&self, root_path: &str, mount_string: &mut String)
        ensures
            final(mount_string)@ == spec_mount_set(self@, root_path@, old(mount_string)@),
        decreases *self,
    {
        let len = self.members.len();
        proof {
            lemma_members_view_index(self.members@);
        }
        let mut i: usize = 0;
        while i < len
            invariant
                len == self.members@.len(),
                i <= len,
                members_view(self.members@).len() == len,
                forall|j: int|
                    0 <= j < len ==> members_view(self.members@)[j] == member_view(
                        self.members@[j],
                    ),
                mount_string@ == spec_mount_members(
                    members_view(self.members@).take(i as int),
                    root_path@,
                    old(mount_string)@,
                ),
            decreases len - i,
        {
            match &self.members[i] {
                Member::Leaf(name) => {
                    let joined = crate::strutil::join_path(root_path, name.as_str());
                    let entry = crate::strutil::escape_special_mount_chars(joined.as_str());
                    if !crate::strutil::contains_substring(mount_string.as_str(), entry.as_str()) {
                        mount_string.append(",lowerdir+=");
                        mount_string.append(entry.as_str());
                    }
                },
                Member::Child(_, set) => {
                    set.get_mount_string(root_path, mount_string);
                },
            }
            proof {
                let mv = members_view(self.members@);
                assert(mv.take(i + 1 as int).drop_last() =~= mv.take(i as int));
                assert(mv.take(i + 1 as int).last() == mv[i as int]);
                assert(mount_string@ == spec_mount_members(
                    mv.take(i + 1 as int),
                    root_path@,
                    old(mount_string)@,
                ));
            }
            i = i + 1;
        }
        proof {
            assert(members_view(self.members@).take(len as int) =~= members_view(self.members@));
        }
    }

    /// Append this tree's resolved commands to `command_list`, children
    /// before self: each nested member's commands first, in member order,
    /// then this set's own command — unless one with the same identity is
    /// already present, so a command referenced from several branches runs
    /// once, at its first (deepest) position.
    pub fn get_commands(&self, command_list: &mut Vec<ExternalCommand>)
        requires
            spec_set_wf(self@),
            spec_cmds_wf(cmds_view(old(command_list)@)),
        ensures
            cmds_view(final(command_list)@) == spec_commands_set(
                self@,
                cmds_view(old(command_list)@),
            ),
            spec_cmds_wf(cmds_view(final(command_list)@)),
        decreases *self,
    {
        let len = self.members.len();
        proof {
            lemma_members_view_index(self.members@);
        }
        let mut i: usize = 0;
        while i < len
            invariant
                spec_set_wf(self@),
                len == self.members@.len(),
                i <= len,
                members_view(self.members@).len() == len,
                forall|j: int|
                    0 <= j < len ==> members_view(self.members@)[j] == member_view(
                        self.members@[j],
                    ),
                cmds_view(command_list@) == spec_commands_members(
                    members_view(self.members@).take(i as int),
                    cmds_view(old(command_list)@),
                ),
                spec_cmds_wf(cmds_view(command_list@)),
            decreases len - i,
        {
            match &self.members[i] {
                Member::Leaf(_) => {},
                Member::Child(_, set) => {
                    proof {
                        lemma_members_wf_index(members_view(self.members@), i as int);
                    }
                    set.get_commands(command_list);
                },
            }
            proof {
                let mv = members_view(self.members@);
                assert(mv.take(i + 1 as int).drop_last() =~= mv.take(i as int));
                assert(mv.take(i + 1 as int).last() == mv[i as int]);
            }
            i = i + 1;
        }
        proof {
            assert(members_view(self.members@).take(len as int) =~= members_view(self.members@));
        }
        let ghost with_children = command_list@;
        match &self.command {
            Some(cmd) => {
                proof {
                    assert(self@.command == Some(cmd@));
                }
                if !has_command_with_id(command_list, cmd.get_id()) {
                    command_list.push(cmd.clone());
                    proof {
                        assert(cmds_view(command_list@) =~= cmds_view(with_children).push(cmd@));
                    }
                }
            },
            None => {},
        }
    }
}

/// Which aggregate a `lemma_any_true` call is about.
pub enum AnyKind {
    Writable,
    Pre,
}

/// A true member at `i` makes the aggregate of any prefix reaching past `i`
/// true.
proof fn lemma_any_true(ms: Seq<MemberView>, i: int, kind: AnyKind)
    requires
        0 <= i < ms.len(),
        match kind {
            AnyKind::Writable => spec_member_writable(ms[i]),
            AnyKind::Pre => spec_member_pre(ms[i]),
        },
    ensures
        match kind {
            AnyKind::Writable => spec_any_writable(ms),
            AnyKind::Pre => spec_any_pre(ms),
        },
    decreases ms,
{
    if i == ms.len() - 1 {
    } else {
        assert(ms.drop_last()[i] == ms[i]);
        lemma_any_true(ms.drop_last(), i, kind);
    }
}

/// A containing member at `i` makes the aggregate true.
proof fn lemma_any_contains_true(ms: Seq<MemberView>, i: int, id: Seq<char>)
    requires
        0 <= i < ms.len(),
        spec_member_contains(ms[i], id),
    ensures
        spec_any_contains(ms, id),
    decreases ms,
{
    if i == ms.len() - 1 {
    } else {
        assert(ms.drop_last()[i] == ms[i]);
        lemma_any_contains_true(ms.drop_last(), i, id);
    }
}

impl View for ModSet {
    type V = ModSetView;

    open spec fn view(&self) -> ModSetView {
        mod_set_view(*self)
    }
}

/// Resolution of this set's named command against the shared table: outer
/// `None` is a construction error (unresolved name or empty argument vector),
/// `Some(None)` means no command is named.
pub open spec fn spec_resolve_command(sc: ModSetConfigView, cfg: GameConfigView) -> Option<
    Option<CommandView>,
> {
    match sc.command {
        None => Some(None),
        Some(name) => match spec_find(cfg.commands, name) {
            None => None,
            Some(cc) => if cc.command.len() > 0 {
                Some(Some(cc))
            } else {
                None
            },
        },
    }
}

/// The names of all configured sets, in table order.
pub open spec fn spec_set_names(cfg: GameConfigView) -> Seq<Seq<char>> {
    cfg.sets.map_values(|p: (Seq<char>, ModSetConfigView)| p.0)
}

/// How many configured set names are not yet on the resolution path: the
/// termination measure of the recursive resolution.
pub open spec fn spec_unvisited_count(cfg: GameConfigView, visited: Seq<Seq<char>>) -> nat {
    spec_set_names(cfg).to_set().difference(visited.to_set()).len()
}

/// Descending into an unvisited set name shrinks the termination measure.
pub proof fn lemma_unvisited_decreases(
    cfg: GameConfigView,
    visited: Seq<Seq<char>>,
    name: Seq<char>,
)
    requires
        spec_set_names(cfg).contains(name),
        !visited.contains(name),
    ensures
        spec_unvisited_count(cfg, visited.push(name)) < spec_unvisited_count(cfg, visited),
{
    broadcast use vstd::seq_lib::group_seq_lib_default;
    broadcast use vstd::set::group_set_axioms;

    let names = spec_set_names(cfg).to_set();
    let v = visited.to_set();
    let v2 = visited.push(name).to_set();
    assert forall|x: Seq<char>| #[trigger] visited.push(name).contains(x) <==> (visited.contains(x)
        || x == name) by {
        vstd::seq_lib::lemma_seq_contains_after_push(visited, name, x);
    }
    assert(v2 =~= v.insert(name));
    assert(names.difference(v2) =~= names.difference(v).remove(name));
    assert(names.difference(v).contains(name));
    assert(names.finite()) by {
        broadcast use vstd::seq_lib::seq_to_set_is_finite;
    }
    assert(names.difference(v).finite());
    vstd::set::axiom_set_remove_len(names.difference(v), name);
}

/// A hit of `spec_find` names an entry of the table.
pub proof fn lemma_spec_find_some_contains<T>(s: Seq<(Seq<char>, T)>, name: Seq<char>)
    requires
        spec_find(s, name) is Some,
    ensures
        exists|i: int| 0 <= i < s.len() && (#[trigger] s[i]).0 == name,
    decreases s.len(),
{
    if s.len() > 0 {
        if s[0].0 == name {
        } else {
            lemma_spec_find_some_contains(s.skip(1), name);
            let i = choose|i: int| 0 <= i < s.skip(1).len() && (#[trigger] s.skip(1)[i]).0 == name;
            assert(s[i + 1] == s.skip(1)[i]);
        }
    }
}

/// The members that the names `mods[i..]` resolve to on the path `visited`,
/// with `existing` the leaf folders present under the mod root: `None` is a
/// construction error — a cycle (a set name already on the path), an absent
/// leaf folder, or a failing nested resolution.
pub open spec fn spec_resolve_members(
    mods: Seq<Seq<char>>,
    i: int,
    cfg: GameConfigView,
    visited: Seq<Seq<char>>,
    existing: Seq<Seq<char>>,
) -> Option<Seq<MemberView>>
    decreases spec_unvisited_count(cfg, visited), mods.len() - i,
    when 0 <= i
    via spec_resolve_members_decreases
{
    if i >= mods.len() {
        Some(Seq::empty())
    } else {
        let name = mods[i];
        match spec_find(cfg.sets, name) {
            Some(child_cfg) => if visited.contains(name) {
                None
            } else {
                match spec_from_config(child_cfg, cfg, visited.push(name), existing) {
                    None => None,
                    Some(child) => match spec_resolve_members(mods, i + 1, cfg, visited, existing) {
                        None => None,
                        Some(rest) => Some(
                            seq![MemberView::Child { name, set: Box::new(child) }] + rest,
                        ),
                    },
                }
            },
            None => if existing.contains(name) {
                match spec_resolve_members(mods, i + 1, cfg, visited, existing) {
                    None => None,
                    Some(rest) => Some(seq![MemberView::Leaf { name }] + rest),
                }
            } else {
                None
            },
        }
    }
}

#[via_fn]
proof fn spec_resolve_members_decreases(
    mods: Seq<Seq<char>>,
    i: int,
    cfg: GameConfigView,
    visited: Seq<Seq<char>>,
    existing: Seq<Seq<char>>,
) {
    if i < mods.len() {
        let name = mods[i];
        match spec_find(cfg.sets, name) {
            Some(_) => {
                if !visited.contains(name) {
                    lemma_spec_find_some_contains(cfg.sets, name);
                    let j = choose|j: int|
                        0 <= j < cfg.sets.len() && (#[trigger] cfg.sets[j]).0 == name;
                    assert(spec_set_names(cfg)[j] == name);
                    assert(spec_set_names(cfg).contains(name));
                    lemma_unvisited_decreases(cfg, visited, name);
                }
            },
            None => {},
        }
    }
}

/// The tree that a set configuration resolves to on the path `visited`:
/// `None` is a construction error — an empty member list, a cycle, an absent
/// leaf folder, or an unresolvable named command.
pub open spec fn spec_from_config(
    sc: ModSetConfigView,
    cfg: GameConfigView,
    visited: Seq<Seq<char>>,
    existing: Seq<Seq<char>>,
) -> Option<ModSetView>
    decreases spec_unvisited_count(cfg, visited), sc.mods.len() + 1,
{
    if sc.mods.len() == 0 {
        None
    } else {
        match spec_resolve_members(sc.mods, 0, cfg, visited, existing) {
            None => None,
            Some(members) => match spec_resolve_command(sc, cfg) {
                None => None,
                Some(cmd) => Some(
                    ModSetView {
                        members,
                        command: cmd,
                        writable: sc.writable == Some(true),
                        run_pre_command: sc.run_pre_command == Some(true),
                        environment: sc.environment,
                    },
                ),
            },
        }
    }
}

/// Appending one member keeps the member-list image and well-formedness in
/// step.
proof fn lemma_members_view_push(s: Seq<Member>, m: Member)
    ensures
        members_view(s.push(m)) == members_view(s).push(member_view(m)),
        spec_members_wf(members_view(s).push(member_view(m))) == (spec_members_wf(members_view(s))
            && spec_member_wf(member_view(m))),
{
    assert(s.push(m).drop_last() =~= s);
    assert(members_view(s).push(member_view(m)).drop_last() =~= members_view(s));
}

impl ModSet {
    /// Resolve one set configuration into an owned tree.
    ///
    /// Every member name is resolved in listed order: a name found in the set
    /// table becomes a nested set, resolved recursively with the name pushed
    /// onto the path `visited` (a name already on the path is a cycle and
    /// fails construction); any other name must appear in `existing_mods`,
    /// the leaf folders present under the mod root, or construction fails. An
    /// empty member list and an unresolvable named command fail construction
    /// too. The errors carry the offending set and game identifiers.
    pub fn from_config(
        set_id: &str,
        set_config: &ModSetConfig,
        game_id: String,
        game_config: &GameConfig,
        visited: &Vec<String>,
        existing_mods: &Vec<String>,
    ) -> (r: Result<ModSet, String>)
        ensures
            match spec_from_config(
                set_config@,
                game_config@,
                strs_view(visited@),
                strs_view(existing_mods@),
            ) {
                Some(t) => r matches Ok(s) && s@ == t && spec_set_wf(s@),
                None => r is Err,
            },
        decreases spec_unvisited_count(game_config@, strs_view(visited@)),
    {
        let ghost sc = set_config@;
        let ghost cfg = game_config@;
        let ghost vis = strs_view(visited@);
        let ghost ex = strs_view(existing_mods@);

        let len = set_config.mods.len();
        if len == 0 {
            let mut msg = "Array 'mods' in configuration set `".to_owned();
            msg.append(set_id);
            msg.append("` of game `");
            msg.append(game_id.as_str());
            msg.append("` is empty");
            return Err(msg);
        }

        let mut members: Vec<Member> = Vec::new();
        proof {
            match spec_resolve_members(sc.mods, 0, cfg, vis, ex) {
                Some(rest) => {
                    assert(members_view(members@) + rest =~= rest);
                },
                None => {},
            }
        }
        let mut i: usize = 0;
        while i < len
            invariant
                len == set_config.mods@.len(),
                len > 0,
                sc == set_config@,
                cfg == game_config@,
                vis == strs_view(visited@),
                ex == strs_view(existing_mods@),
                i <= len,
                spec_members_wf(members_view(members@)),
                match spec_resolve_members(sc.mods, i as int, cfg, vis, ex) {
                    Some(rest) => spec_resolve_members(sc.mods, 0, cfg, vis, ex) == Some(
                        members_view(members@) + rest,
                    ),
                    None => spec_resolve_members(sc.mods, 0, cfg, vis, ex) is None,
                },
            decreases len - i,
        {
            let name = &set_config.mods[i];
            proof {
                assert(sc.mods[i as int] == name@);
            }
            match game_config.find_set(name) {
                Some(child_cfg) => {
                    if crate::strutil::contains_string(visited, name) {
                        let mut msg = "Recursion detected in set `".to_owned();
                        msg.append(set_id);
                        msg.append("` of game `");
                        msg.append(game_id.as_str());
                        msg.append("`: it already contains `");
                        msg.append(name.as_str());
                        msg.append("`.");
                        return Err(msg);
                    }
                    let mut next_visited = crate::strutil::clone_strings(visited);
                    next_visited.push(name.clone());
                    proof {
                        assert(strs_view(next_visited@) =~= vis.push(name@));
                        lemma_spec_find_some_contains(cfg.sets, name@);
                        let j = choose|j: int|
                            0 <= j < cfg.sets.len() && (#[trigger] cfg.sets[j]).0 == name@;
                        assert(spec_set_names(cfg)[j] == name@);
                        assert(spec_set_names(cfg).contains(name@));
                        lemma_unvisited_decreases(cfg, vis, name@);
                    }
                    match ModSet::from_config(
                        name.as_str(),
                        child_cfg,
                        game_id.clone(),
                        game_config,
                        &next_visited,
                        existing_mods,
                    ) {
                        Ok(sub) => {
                            let ghost old_members = members@;
                            let member = Member::Child(name.clone(), Box::new(sub));
                            proof {
                                lemma_members_view_push(old_members, member);
                            }
                            members.push(member);
                            proof {
                                let mv_old = members_view(old_members);
                                let cm = member_view(member);
                                match spec_resolve_members(sc.mods, i + 1 as int, cfg, vis, ex) {
                                    Some(rest) => {
                                        assert(mv_old + (seq![cm] + rest) =~= mv_old.push(cm)
                                            + rest);
                                    },
                                    None => {},
                                }
                            }
                        },
                        Err(error) => {
                            let mut msg = "Failed to add mod set `".to_owned();
                            msg.append(set_id);
                            msg.append("` of game `");
                            msg.append(game_id.as_str());
                            msg.append("`: ");
                            msg.append(error.as_str());
                            return Err(msg);
                        },
                    }
                },
                None => {
                    if crate::strutil::contains_string(existing_mods, name) {
                        let ghost old_members = members@;
                        let member = Member::Leaf(name.clone());
                        proof {
                            lemma_members_view_push(old_members, member);
                        }
                        members.push(member);
                        proof {
                            let mv_old = members_view(old_members);
                            let cm = member_view(member);
                            match spec_resolve_members(sc.mods, i + 1 as int, cfg, vis, ex) {
                                Some(rest) => {
                                    assert(mv_old + (seq![cm] + rest) =~= mv_old.push(cm) + rest);
                                },
                                None => {},
                            }
                        }
                    } else {
                        let mut msg = "Mod set folder `".to_owned();
                        msg.append(name.as_str());
                        msg.append("` does not exist under the mod root for game `");
                        msg.append(game_id.as_str());
                        msg.append("`");
                        return Err(msg);
                    }
                },
            }
            i = i + 1;
        }
        proof {
            match spec_resolve_members(sc.mods, len as int, cfg, vis, ex) {
                Some(rest) => {
                    assert(members_view(members@) + rest =~= members_view(members@));
                },
                None => {},
            }
        }

        let command = match &set_config.command {
            None => None,
            Some(cmd_name) => match game_config.find_command(cmd_name) {
                None => {
                    let mut msg = "Command `".to_owned();
                    msg.append(cmd_name.as_str());
                    msg.append("` of set `");
                    msg.append(set_id);
                    msg.append("` not found in config of game `");
                    msg.append(game_id.as_str());
                    msg.append("`");
                    return Err(msg);
                },
                Some(command_config) => match ExternalCommand::from_config(command_config) {
                    Ok(cmd) => Some(cmd),
                    Err(error) => {
                        let mut msg = "Command creation failed for `".to_owned();
                        msg.append(cmd_name.as_str());
                        msg.append("` of set `");
                        msg.append(set_id);
                        msg.append("`: ");
                        msg.append(error.as_str());
                        return Err(msg);
                    },
                },
            },
        };

        let result = ModSet {
            members,
            command,
            writable: match set_config.writable {
                Some(b) => b,
                None => false,
            },
            run_pre_command: match set_config.run_pre_command {
                Some(b) => b,
                None => false,
            },
            environment: set_config.environment.clone(),
        };
        Ok(result)
    }
}

/// Whether `p` is a chain of set references in `cfg`: every entry names a
/// configured set, and each entry is listed among the previous entry's
/// members.
pub open spec fn spec_ref_path(cfg: GameConfigView, p: Seq<Seq<char>>) -> bool {
    (forall|i: int| 0 <= i < p.len() ==> spec_find(cfg.sets, #[trigger] p[i]) is Some)
        && (forall|i: int|
        0 <= i < p.len() - 1 ==> spec_find(cfg.sets, #[trigger] p[i]).unwrap().mods.contains(
            p[i + 1],
        ))
}

/// A successful member resolution resolved every member: a member that names
/// a set was not on the path, and its own resolution on the extended path
/// succeeded.
proof fn lemma_members_resolved(
    mods: Seq<Seq<char>>,
    j: int,
    i: int,
    cfg: GameConfigView,
    visited: Seq<Seq<char>>,
    existing: Seq<Seq<char>>,
)
    requires
        0 <= j <= i < mods.len(),
        spec_resolve_members(mods, j, cfg, visited, existing) is Some,
        spec_find(cfg.sets, mods[i]) is Some,
    ensures
        !visited.contains(mods[i]),
        spec_from_config(
            spec_find(cfg.sets, mods[i]).unwrap(),
            cfg,
            visited.push(mods[i]),
            existing,
        ) is Some,
    decreases i - j,
{
    if j < i {
        lemma_members_resolved(mods, j + 1, i, cfg, visited, existing);
    }
}

/// No nonempty reference chain that starts among `sc`'s members can lead
/// back to a name on the resolution path, once `sc` resolves successfully.
proof fn lemma_no_path_to_visited(
    cfg: GameConfigView,
    sc: ModSetConfigView,
    visited: Seq<Seq<char>>,
    existing: Seq<Seq<char>>,
    p: Seq<Seq<char>>,
)
    requires
        spec_from_config(sc, cfg, visited, existing) is Some,
        p.len() >= 1,
        sc.mods.contains(p[0]),
        spec_ref_path(cfg, p),
    ensures
        !visited.contains(p.last()),
    decreases p.len(),
{
    let m = p[0];
    let i = choose|i: int| 0 <= i < sc.mods.len() && sc.mods[i] == m;
    lemma_members_resolved(sc.mods, 0, i, cfg, visited, existing);
    let child = spec_find(cfg.sets, m).unwrap();
    if p.len() == 1 {
    } else {
        let q = p.skip(1);
        assert(q[0] == p[1]);
        assert(child.mods.contains(q[0]));
        assert(spec_ref_path(cfg, q)) by {
            assert(forall|k: int| 0 <= k < q.len() ==> q[k] == p[k + 1]);
        }
        assert(q.last() == p.last());
        lemma_no_path_to_visited(cfg, child, visited.push(m), existing, q);
        if visited.contains(p.last()) {
            let k = choose|k: int| 0 <= k < visited.len() && visited[k] == p.last();
            assert(visited.push(m)[k] == p.last());
            assert(visited.push(m).contains(p.last()));
        }
    }
}

/// Cycle detection: a set whose member list, directly or transitively,
/// includes the set itself fails construction. `p` is any nonempty chain of
/// set references that starts among `a`'s members and leads back to `a`; the
/// resolution of `a` on a fresh path then yields no tree.
pub proof fn lemma_cycle_fails_construction(
    cfg: GameConfigView,
    a: Seq<char>,
    p: Seq<Seq<char>>,
    existing: Seq<Seq<char>>,
)
    requires
        spec_find(cfg.sets, a) is Some,
        p.len() >= 1,
        spec_find(cfg.sets, a).unwrap().mods.contains(p[0]),
        spec_ref_path(cfg, p),
        p.last() == a,
    ensures
        spec_from_config(
            spec_find(cfg.sets, a).unwrap(),
            cfg,
            Seq::empty(),
            existing,
        ) is None,
{
    let sc = spec_find(cfg.sets, a).unwrap();
    if spec_from_config(sc, cfg, Seq::empty(), existing) is Some {
        let m = p[0];
        let i = choose|i: int| 0 <= i < sc.mods.len() && sc.mods[i] == m;
        lemma_members_resolved(sc.mods, 0, i, cfg, Seq::empty(), existing);
        let child = spec_find(cfg.sets, m).unwrap();
        let onpath = Seq::empty().push(m);
        assert(onpath[0] == m);
        assert(onpath.contains(m));
        if p.len() == 1 {
            // the chain is `a -> a` itself: resolving `a` again under the
            // path `[a]` cannot have succeeded
            assert(m == a);
            assert(child == sc);
            let q = seq![m];
            assert(q[0] == m);
            assert(sc.mods.contains(q[0]));
            assert(spec_ref_path(cfg, q));
            lemma_no_path_to_visited(cfg, child, onpath, existing, q);
            assert(q.last() == m);
        } else {
            // follow the chain from `m` around to `a` and then back to `m`
            let q = p.skip(1).push(m);
            assert(q[0] == p[1]);
            assert(child.mods.contains(q[0]));
            assert(spec_ref_path(cfg, q)) by {
                assert(forall|k: int| 0 <= k < q.len() - 1 ==> q[k] == p[k + 1]);
                assert(q.last() == m);
                assert(q[q.len() - 2] == p.last());
                assert(spec_find(cfg.sets, p.last()).unwrap().mods.contains(m));
            }
            lemma_no_path_to_visited(cfg, child, onpath, existing, q);
            assert(q.last() == m);
        }
        assert(false);
    }
}

/// No two commands in the list share an identity.
pub open spec fn spec_unique_ids(s: Seq<CommandView>) -> bool {
    forall|i: int, j: int|
        0 <= i < j < s.len() ==> spec_cmd_id(#[trigger] s[i]) != spec_cmd_id(#[trigger] s[j])
}

/// Collecting a member list's commands keeps what was there and never
/// introduces a duplicated identity.
proof fn lemma_commands_members_unique(
    ms: Seq<MemberView>,
    acc: Seq<CommandView>,
)
    requires
        spec_unique_ids(acc),
    ensures
        spec_unique_ids(spec_commands_members(ms, acc)),
        spec_commands_members(ms, acc).take(acc.len() as int) == acc,
        spec_commands_members(ms, acc).len() >= acc.len(),
    decreases ms,
{
    if ms.len() == 0 {
        assert(spec_commands_members(ms, acc).take(acc.len() as int) =~= acc);
    } else {
        lemma_commands_members_unique(ms.drop_last(), acc);
        let prev = spec_commands_members(ms.drop_last(), acc);
        match ms.last() {
            MemberView::Leaf { .. } => {},
            MemberView::Child { set, .. } => {
                lemma_commands_set_unique(*set, prev);
                let fin = spec_commands_set(*set, prev);
                assert(fin.take(prev.len() as int) == prev);
                assert(fin.take(acc.len() as int) =~= acc) by {
                    assert(forall|k: int|
                        0 <= k < acc.len() ==> fin.take(prev.len() as int)[k] == fin[k]);
                }
            },
        }
    }
}

/// Command de-duplication: collecting a tree's commands onto a list whose
/// identities are pairwise distinct yields a list whose identities are still
/// pairwise distinct, and what was already collected stays in place — a
/// command referenced by both a child set and the root appears exactly once,
/// at the child's (earlier) position.
pub proof fn lemma_commands_set_unique(v: ModSetView, acc: Seq<CommandView>)
    requires
        spec_unique_ids(acc),
    ensures
        spec_unique_ids(spec_commands_set(v, acc)),
        spec_commands_set(v, acc).take(acc.len() as int) == acc,
        spec_commands_set(v, acc).len() >= acc.len(),
    decreases v,
{
    lemma_commands_members_unique(v.members, acc);
    let wc = spec_commands_members(v.members, acc);
    match v.command {
        Some(c) => {
            if !spec_has_id(wc, spec_cmd_id(c)) {
                assert(spec_unique_ids(wc.push(c))) by {
                    assert(forall|i: int|
                        0 <= i < wc.len() ==> spec_cmd_id(#[trigger] wc.push(c)[i]) != spec_cmd_id(
                            c,
                        ));
                    assert(forall|i: int, j: int|
                        0 <= i < j < wc.len() ==> spec_cmd_id(#[trigger] wc.push(c)[i])
                            != spec_cmd_id(#[trigger] wc.push(c)[j]));
                }
                assert(wc.push(c).take(acc.len() as int) =~= acc) by {
                    assert(wc.take(acc.len() as int) == acc);
                    assert(forall|k: int| 0 <= k < acc.len() ==> wc.push(c)[k] == wc[k]);
                }
            }
        },
        None => {},
    }
}

/// Whether a member is a nested set whose merged environment binds `k`.
pub open spec fn spec_member_env_has(m: MemberView, k: Seq<char>) -> bool
    decreases m,
{
    match m {
        MemberView::Leaf { .. } => false,
        MemberView::Child { set, .. } => spec_env(*set).contains_key(k),
    }
}

/// The merged environment of the nested set at member `i`.
pub open spec fn spec_member_env(m: MemberView) -> Map<Seq<char>, Seq<char>>
    decreases m,
{
    match m {
        MemberView::Leaf { .. } => Map::empty(),
        MemberView::Child { set, .. } => spec_env(*set),
    }
}

proof fn lemma_env_members_precedence(
    ms: Seq<MemberView>,
    acc: Map<Seq<char>, Seq<char>>,
    i: int,
    k: Seq<char>,
)
    requires
        0 <= i < ms.len(),
        spec_member_env_has(ms[i], k),
        forall|j: int| i < j < ms.len() ==> !spec_member_env_has(#[trigger] ms[j], k),
    ensures
        spec_env_members(ms, acc).contains_key(k),
        spec_env_members(ms, acc)[k] == spec_member_env(ms[i])[k],
    decreases ms,
{
    if i == ms.len() - 1 {
    } else {
        assert(ms.drop_last()[i] == ms[i]);
        assert(forall|j: int|
            i < j < ms.len() - 1 ==> ms.drop_last()[j] == #[trigger] ms[j]);
        lemma_env_members_precedence(ms.drop_last(), acc, i, k);
        assert(!spec_member_env_has(ms.last(), k));
    }
}

proof fn lemma_env_members_untouched(
    ms: Seq<MemberView>,
    acc: Map<Seq<char>, Seq<char>>,
    k: Seq<char>,
)
    requires
        forall|j: int| 0 <= j < ms.len() ==> !spec_member_env_has(#[trigger] ms[j], k),
    ensures
        spec_env_members(ms, acc).contains_key(k) == acc.contains_key(k),
        acc.contains_key(k) ==> spec_env_members(ms, acc)[k] == acc[k],
    decreases ms,
{
    if ms.len() > 0 {
        assert(forall|j: int|
            0 <= j < ms.len() - 1 ==> ms.drop_last()[j] == #[trigger] ms[j]);
        lemma_env_members_untouched(ms.drop_last(), acc, k);
        assert(!spec_member_env_has(ms.last(), k));
    }
}

/// Environment precedence: when the nested set at member `i` binds `k` and
/// no later member does, the tree's merged environment binds `k` to that
/// nested set's value — a child's value overrides the set's own and those of
/// earlier siblings.
pub proof fn lemma_env_child_overrides(v: ModSetView, i: int, k: Seq<char>)
    requires
        0 <= i < v.members.len(),
        spec_member_env_has(v.members[i], k),
        forall|j: int| i < j < v.members.len() ==> !spec_member_env_has(#[trigger] v.members[j], k),
    ensures
        spec_env(v).contains_key(k),
        spec_env(v)[k] == spec_member_env(v.members[i])[k],
{
    lemma_env_members_precedence(v.members, v.environment, i, k);
}

/// Environment precedence, the complementary half: when no nested member
/// binds `k`, the tree's merged environment binds `k` exactly as the set's
/// own environment does.
pub proof fn lemma_env_own_when_no_child(v: ModSetView, k: Seq<char>)
    requires
        forall|j: int|
            0 <= j < v.members.len() ==> !spec_member_env_has(#[trigger] v.members[j], k),
    ensures
        spec_env(v).contains_key(k) == v.environment.contains_key(k),
        v.environment.contains_key(k) ==> spec_env(v)[k] == v.environment[k],
{
    lemma_env_members_untouched(v.members, v.environment, k);
}

} // verus!
