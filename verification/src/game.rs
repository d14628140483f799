//! One game: its overlay, its optional mod-set tree, and the pure decisions
//! of the activate/deactivate lifecycle.
//!
//! The surrounding program owns the configuration files, the XDG directories
//! and every filesystem or process action; it hands the paths it resolved and
//! the probes it made to the functions here as plain values.

use crate::config::{opt_str_view, strs_view, spec_find, GameConfig, GameConfigView};
use crate::external_command::ExternalCommand;
use crate::mod_set::{
    cmds_view, spec_cmds_wf, spec_commands_set, spec_from_config, spec_mount_set, spec_run_pre,
    spec_set_wf, spec_writable, ModSet, ModSetView,
};
use crate::overlay::Overlay;
use crate::strutil::{escape_special_mount_chars, join_path, spec_escaped, spec_joined};
use vstd::prelude::*;

verus! {

/// An error from the game lifecycle: a kind tag, the game it concerns, and a
/// message.
#[derive(Debug)]
pub struct GameError {
    /// The kind tag, e.g. `overlay`, `fs`, `process`, or the distinguished
    /// `Overlay in use.`.
    pub kind: String,
    /// The identifier of the game the error concerns.
    pub id: String,
    /// The error's message text.
    pub message: String,
}

impl GameError {
    /// Build an error.
    pub fn new(kind: String, id: String, message: String) -> (r: GameError)
        ensures
            r.kind == kind,
            r.id == id,
            r.message == message,
    {
        GameError { kind, id, message }
    }

    /// A readable, single-line description of the error.
    pub fn describe(&self) -> (r: String)
        ensures
            r@ == "GameError { kind: "@ + self.kind@ + ", overlay: "@ + self.id@ + ", message: "@
                + self.message@ + " }"@,
    {
        let mut r = "GameError { kind: ".to_owned();
        r.append(self.kind.as_str());
        r.append(", overlay: ");
        r.append(self.id.as_str());
        r.append(", message: ");
        r.append(self.message.as_str());
        r.append(" }");
        r
    }
}

impl Clone for GameError {
    /// An exact copy of the error.
    fn clone(&self) -> (res: Self)
        ensures
            res.kind == self.kind,
            res.id == self.id,
            res.message == self.message,
    {
        GameError { kind: self.kind.clone(), id: self.id.clone(), message: self.message.clone() }
    }
}

/// The spec-level image of an optional mod tree.
pub open spec fn spec_tree_view(t: Option<ModSet>) -> Option<ModSetView> {
    match t {
        Some(s) => Some(s@),
        None => None,
    }
}

/// The game directory the configuration selects: an explicit `path`, or the
/// default game root joined with the game identifier.
pub open spec fn spec_game_path(
    cfg: GameConfigView,
    id: Seq<char>,
    default_path_root: Option<Seq<char>>,
) -> Option<Seq<char>> {
    match cfg.path {
        Some(p) => Some(p),
        None => match default_path_root {
            Some(root) => Some(spec_joined(root, id)),
            None => None,
        },
    }
}

/// The set to activate: a non-empty override wins, an empty override
/// deactivates the tree, otherwise a non-empty configured `active` applies.
pub open spec fn spec_active_set(
    set_override: Option<Seq<char>>,
    cfg: GameConfigView,
) -> Option<Seq<char>> {
    match set_override {
        Some(s) => if s.len() == 0 {
            None
        } else {
            Some(s)
        },
        None => match cfg.active {
            Some(v) => if v.len() == 0 {
                None
            } else {
                Some(v)
            },
            None => None,
        },
    }
}

/// What constructing a game resolves to: the game path and the optional mod
/// tree — or `None` when the path is missing, the named set is unknown, or
/// the set fails resolution.
pub open spec fn spec_game_plan(
    id: Seq<char>,
    set_override: Option<Seq<char>>,
    cfg: GameConfigView,
    default_path_root: Option<Seq<char>>,
    existing: Seq<Seq<char>>,
) -> Option<(Seq<char>, Option<ModSetView>)> {
    match spec_game_path(cfg, id, default_path_root) {
        None => None,
        Some(path) => match spec_active_set(set_override, cfg) {
            None => Some((path, None)),
            Some(active) => match spec_find(cfg.sets, active) {
                None => None,
                Some(sc) => match spec_from_config(sc, cfg, Seq::empty(), existing) {
                    None => None,
                    Some(t) => Some((path, Some(t))),
                },
            },
        },
    }
}

/// One game: identifier, configuration, overlay, optional mod tree, and the
/// externally resolved default directories.
pub struct Game {
    /// The game identifier, matching its configuration file.
    pub id: String,
    /// The game's configuration.
    pub config: GameConfig,
    /// The game's overlay.
    pub overlay: Overlay,
    /// The resolved mod tree; `None` when overlays are inactive.
    pub mod_tree: Option<ModSet>,
    /// The default root under which mod folders live, if configured.
    pub default_mod_root: Option<String>,
    /// The per-game data directory, the last fallback for the mod root.
    pub data_home: String,
}

/// A game whose resolved tree, if any, is well-formed. Construction
/// establishes this.
pub open spec fn spec_game_wf(g: Game) -> bool {
    match g.mod_tree {
        Some(t) => spec_set_wf(t@),
        None => true,
    }
}

/// The root under which a game's mod folders live, given its configuration
/// and the externally resolved defaults.
pub open spec fn spec_mod_root_of(
    cfg: GameConfigView,
    id: Seq<char>,
    default_mod_root: Option<Seq<char>>,
    data_home: Seq<char>,
) -> Seq<char> {
    match cfg.mod_root_path {
        Some(v) => v,
        None => match default_mod_root {
            Some(root) => spec_joined(root, id),
            None => data_home,
        },
    }
}

/// The root under which the game's mod folders live.
pub open spec fn spec_mod_root(g: Game) -> Seq<char> {
    spec_mod_root_of(g.config@, g.id@, opt_str_view(g.default_mod_root), g.data_home@)
}

/// The root under which a game's mod folders live: the configured path, the
/// default root joined with the game identifier, or the data directory. This
/// is the same resolution the game performs, available before the game is
/// built — the leaf folders present under it feed construction.
pub fn mod_root_path_of(
    config: &GameConfig,
    id: &str,
    default_mod_root: &Option<String>,
    data_home: &str,
) -> (r: String)
    ensures
        r@ == spec_mod_root_of(
            config@,
            id@,
            match default_mod_root {
                Some(root) => Some(root@),
                None => None,
            },
            data_home@,
        ),
{
    match &config.mod_root_path {
        Some(value) => value.clone(),
        None => match default_mod_root {
            Some(root) => join_path(root.as_str(), id),
            None => data_home.to_owned(),
        },
    }
}

/// Tree-wide OR of the writable flag: the game's own, or the tree's.
pub open spec fn spec_game_writable(g: Game) -> bool {
    g.config@.writable == Some(true) || (match g.mod_tree {
        Some(t) => spec_writable(t@),
        None => false,
    })
}

/// Tree-wide OR of the run-pre-commands flag: the game's own, or the tree's.
pub open spec fn spec_game_run_pre(g: Game) -> bool {
    g.config@.run_pre_command == Some(true) || (match g.mod_tree {
        Some(t) => spec_run_pre(t@),
        None => false,
    })
}

/// The full mount-option string: the fixed hide options; the tree's layer
/// stack (deduplicated within itself); the shadow path as the last, highest
/// layer; then, when mounting writable, the upper/work directory pair with
/// index and metadata copy-up disabled — or, for a bare writable-less mount
/// without a tree, the empty dummy layer that lets the overlay facility mount
/// a single folder.
pub open spec fn spec_game_mount_string(
    g: Game,
    writable: bool,
    is_setup: bool,
    upperdir: Seq<char>,
    workdir: Seq<char>,
    dummy_dir: Seq<char>,
) -> Seq<char> {
    let base = "x-gvfs-hide,comment=x-gvfs-hide"@;
    let esc_moved = spec_escaped(g.overlay.moved_path@);
    let with_layers = match g.mod_tree {
        Some(t) => base + spec_mount_set(t@, spec_mod_root(g), Seq::empty()) + ",lowerdir+="@
            + esc_moved,
        None => base + ",lowerdir+="@ + esc_moved,
    };
    if writable || spec_game_writable(g) {
        with_layers + ",upperdir="@ + upperdir + ",workdir="@ + workdir
            + ",index=off,metacopy=off"@
    } else if g.mod_tree is None {
        with_layers + ",lowerdir+="@ + spec_escaped(dummy_dir)
    } else {
        with_layers
    }
}

/// The cache-directory name of the writable upper layer: per setup session,
/// per active set, or the set-less default.
pub open spec fn spec_persistent_dir_name(g: Game, is_setup: bool) -> Seq<char> {
    if is_setup {
        "persistent_setup"@
    } else if g.config@.active is Some && g.mod_tree is Some {
        g.config@.active.unwrap() + "_persistent"@
    } else {
        "persistent_modless"@
    }
}

impl Game {
    /// Build a game from its configuration and the externally resolved
    /// context: the default roots, the leaf mod folders present under the
    /// mod root, the current working directory and the per-game data
    /// directory.
    ///
    /// Construction fails when no game path is available, when the selected
    /// set is not configured, or when the set's resolution fails (empty
    /// member list, cycle, absent leaf folder, unresolvable command).
    pub fn from_config(
        id: String,
        set_override: Option<String>,
        config: GameConfig,
        default_path_root: Option<String>,
        default_mod_root: Option<String>,
        existing_mods: &Vec<String>,
        cwd: String,
        data_home: String,
    ) -> (r: Result<Game, String>)
        ensures
            match spec_game_plan(
                id@,
                opt_str_view(set_override),
                config@,
                opt_str_view(default_path_root),
                strs_view(existing_mods@),
            ) {
                None => r is Err,
                Some(plan) => r matches Ok(g) && g.id == id && g.config@ == config@
                    && g.overlay.game_id == id && g.overlay.path@ == plan.0
                    && g.overlay.moved_path@ == plan.0 + "_mod-manager"@ && g.overlay.cwd == cwd
                    && spec_tree_view(g.mod_tree) == plan.1 && spec_game_wf(g)
                    && g.default_mod_root == default_mod_root && g.data_home == data_home,
            },
    {
        let path: String = match &config.path {
            Some(value) => value.clone(),
            None => match &default_path_root {
                Some(root) => join_path(root.as_str(), id.as_str()),
                None => {
                    let mut msg = "Config for '".to_owned();
                    msg.append(id.as_str());
                    msg.append("' is missing path value and no default 'game_root_path' found.");
                    return Err(msg);
                },
            },
        };

        let mut moved_path = path.clone();
        moved_path.append("_mod-manager");

        let active_set: Option<String> = match set_override {
            Some(set) => {
                if set.as_str().is_empty() {
                    None
                } else {
                    Some(set)
                }
            },
            None => match &config.active {
                Some(value) => {
                    if value.as_str().is_empty() {
                        None
                    } else {
                        Some(value.clone())
                    }
                },
                None => None,
            },
        };

        let mod_tree: Option<ModSet> = match &active_set {
            Some(a_set) => match config.find_set(a_set) {
                Some(set_config) => {
                    let visited: Vec<String> = Vec::new();
                    proof {
                        assert(strs_view(visited@) =~= Seq::<Seq<char>>::empty());
                    }
                    match ModSet::from_config(
                        a_set.as_str(),
                        set_config,
                        id.clone(),
                        &config,
                        &visited,
                        existing_mods,
                    ) {
                        Ok(tree) => Some(tree),
                        Err(error) => {
                            return Err(error);
                        },
                    }
                },
                None => {
                    let mut msg = "Field '".to_owned();
                    msg.append(a_set.as_str());
                    msg.append("' in game '");
                    msg.append(id.as_str());
                    msg.append("' not found");
                    return Err(msg);
                },
            },
            None => None,
        };

        let overlay = Overlay::new(id.clone(), path, moved_path, cwd);

        Ok(Game { id, config, overlay, mod_tree, default_mod_root, data_home })
    }

    /// The root under which the game's mod folders live: the configured
    /// path, the default root joined with the game identifier, or the data
    /// directory. The surrounding program creates it when absent.
    pub fn get_mod_root_path(&self) -> (r: String)
        ensures
            r@ == spec_mod_root(*self),
    {
        match &self.config.mod_root_path {
            Some(value) => value.clone(),
            None => match &self.default_mod_root {
                Some(root) => join_path(root.as_str(), self.id.as_str()),
                None => self.data_home.clone(),
            },
        }
    }

    /// Tree-wide OR: the game's own writable flag, or the tree's aggregate.
    pub fn should_be_writable(&self) -> (r: bool)
        ensures
            r == spec_game_writable(*self),
    {
        let own = match self.config.writable {
            Some(b) => b,
            None => false,
        };
        if own {
            return true;
        }
        match &self.mod_tree {
            Some(tree) => tree.should_be_writable(),
            None => false,
        }
    }

    /// Tree-wide OR: the game's own run-pre-commands flag, or the tree's
    /// aggregate.
    pub fn should_run_pre_commands(&self) -> (r: bool)
        ensures
            r == spec_game_run_pre(*self),
    {
        let own = match self.config.run_pre_command {
            Some(b) => b,
            None => false,
        };
        if own {
            return true;
        }
        match &self.mod_tree {
            Some(tree) => tree.should_run_pre_commands(),
            None => false,
        }
    }

    /// Whether this activation mounts writable: the caller's request, or the
    /// configuration's aggregate. When true, the caller must create the
    /// upper and work directories and reset the work directory before
    /// mounting.
    pub fn needs_writable(&self, writable: bool) -> (r: bool)
        ensures
            r == (writable || spec_game_writable(*self)),
    {
        writable || self.should_be_writable()
    }

    /// The cache-directory name of the writable upper layer.
    pub fn persistent_dir_name(&self, is_setup: bool) -> (r: String)
        ensures
            r@ == spec_persistent_dir_name(*self, is_setup),
    {
        if is_setup {
            return "persistent_setup".to_owned();
        }
        match &self.config.active {
            Some(active) => match &self.mod_tree {
                Some(_) => {
                    let mut r = active.clone();
                    r.append("_persistent");
                    r
                },
                None => "persistent_modless".to_owned(),
            },
            None => "persistent_modless".to_owned(),
        }
    }

    /// Compose the full mount-option string. `upperdir` and `workdir` are
    /// the writable layer's directories (consulted only when the mount is
    /// writable); `dummy_dir` is the empty helper folder used when a
    /// tree-less overlay is mounted read-only.
    pub fn get_mount_string(
        &self,
        writable: bool,
        is_setup: bool,
        upperdir: &str,
        workdir: &str,
        dummy_dir: &str,
    ) -> (r: String)
        ensures
            r@ == spec_game_mount_string(
                *self,
                writable,
                is_setup,
                upperdir@,
                workdir@,
                dummy_dir@,
            ),
    {
        let mut mount_string = "x-gvfs-hide,comment=x-gvfs-hide".to_owned();
        let ghost base = mount_string@;
        match &self.mod_tree {
            Some(tree) => {
                let root = self.get_mod_root_path();
                let mut fragment = String::new();
                tree.get_mount_string(root.as_str(), &mut fragment);
                mount_string.append(fragment.as_str());
                mount_string.append(",lowerdir+=");
                let esc = escape_special_mount_chars(self.overlay.moved_path.as_str());
                mount_string.append(esc.as_str());
                proof {
                    assert(mount_string@ =~= base + spec_mount_set(
                        tree@,
                        spec_mod_root(*self),
                        Seq::empty(),
                    ) + ",lowerdir+="@ + spec_escaped(self.overlay.moved_path@));
                }
            },
            None => {
                mount_string.append(",lowerdir+=");
                let esc = escape_special_mount_chars(self.overlay.moved_path.as_str());
                mount_string.append(esc.as_str());
                proof {
                    assert(mount_string@ =~= base + ",lowerdir+="@ + spec_escaped(
                        self.overlay.moved_path@,
                    ));
                }
            },
        }
        let ghost with_layers = mount_string@;
        if self.needs_writable(writable) {
            mount_string.append(",upperdir=");
            mount_string.append(upperdir);
            mount_string.append(",workdir=");
            mount_string.append(workdir);
            mount_string.append(",index=off,metacopy=off");
            proof {
                assert(mount_string@ =~= with_layers + ",upperdir="@ + upperdir@ + ",workdir="@
                    + workdir@ + ",index=off,metacopy=off"@);
            }
        } else {
            match &self.mod_tree {
                Some(_) => {},
                None => {
                    mount_string.append(",lowerdir+=");
                    let esc = escape_special_mount_chars(dummy_dir);
                    mount_string.append(esc.as_str());
                    proof {
                        assert(mount_string@ =~= with_layers + ",lowerdir+="@ + spec_escaped(
                            dummy_dir@,
                        ));
                    }
                },
            }
        }
        mount_string
    }

    /// Append the tree's resolved commands to `command_list`, children
    /// before self, deduplicated by command identity. Without a tree the
    /// list is unchanged.
    pub fn get_commands(&self, command_list: &mut Vec<ExternalCommand>)
        requires
            spec_game_wf(*self),
            spec_cmds_wf(cmds_view(old(command_list)@)),
        ensures
            cmds_view(final(command_list)@) == (match self.mod_tree {
                Some(t) => spec_commands_set(t@, cmds_view(old(command_list)@)),
                None => cmds_view(old(command_list)@),
            }),
            spec_cmds_wf(cmds_view(final(command_list)@)),
    {
        match &self.mod_tree {
            Some(tree) => tree.get_commands(command_list),
            None => {},
        }
    }
}

/// The own pre-commands a game contributes when pre-commands are enabled:
/// each configured entry with a non-empty argument vector, in order. Entries
/// with an empty argument vector cannot be built and are skipped.
pub open spec fn spec_valid_pre(cmds: Seq<crate::config::CommandView>) -> Seq<
    crate::config::CommandView,
>
    decreases cmds,
{
    if cmds.len() == 0 {
        Seq::empty()
    } else {
        let rest = spec_valid_pre(cmds.drop_last());
        if cmds.last().command.len() > 0 {
            rest.push(cmds.last())
        } else {
            rest
        }
    }
}

impl Game {
    /// Assemble the full pre-command list of one activation: the game's own
    /// configured pre-commands first — only when pre-commands are enabled by
    /// the game or the tree — then the tree's collected commands, in the
    /// order handed in.
    pub fn collect_pre_commands(&self, mod_tree_commands: Vec<ExternalCommand>) -> (r: Vec<
        ExternalCommand,
    >)
        ensures
            cmds_view(r@) == (if spec_game_run_pre(*self) {
                spec_valid_pre(self.config@.pre_command)
            } else {
                Seq::empty()
            }) + cmds_view(mod_tree_commands@),
    {
        let mut commands: Vec<ExternalCommand> = Vec::new();
        if self.should_run_pre_commands() {
            let len = self.config.pre_command.len();
            let mut i: usize = 0;
            while i < len
                invariant
                    len == self.config.pre_command@.len(),
                    i <= len,
                    cmds_view(commands@) == spec_valid_pre(self.config@.pre_command.take(i as int)),
                decreases len - i,
            {
                proof {
                    assert(self.config@.pre_command[i as int] == self.config.pre_command@[i as int]@);
                }
                match ExternalCommand::from_config(&self.config.pre_command[i]) {
                    Ok(cmd) => {
                        commands.push(cmd);
                    },
                    Err(_) => {},
                }
                proof {
                    let pc = self.config@.pre_command;
                    assert(pc.take(i + 1 as int).drop_last() =~= pc.take(i as int));
                    assert(pc.take(i + 1 as int).last() == pc[i as int]);
                    assert(cmds_view(commands@) =~= spec_valid_pre(pc.take(i + 1 as int)));
                }
                i = i + 1;
            }
            proof {
                assert(self.config@.pre_command.take(len as int) =~= self.config@.pre_command);
            }
        }
        let ghost own = cmds_view(commands@);
        let len = mod_tree_commands.len();
        let mut i: usize = 0;
        while i < len
            invariant
                len == mod_tree_commands@.len(),
                i <= len,
                cmds_view(commands@) == own + cmds_view(mod_tree_commands@.take(i as int)),
            decreases len - i,
        {
            let ghost before = commands@;
            let next = mod_tree_commands[i].clone();
            let ghost next_view = next@;
            commands.push(next);
            proof {
                assert(cmds_view(commands@) =~= cmds_view(before).push(next_view));
                let prev = cmds_view(mod_tree_commands@.take(i as int));
                assert(mod_tree_commands@.take(i + 1 as int).drop_last() =~= mod_tree_commands@.take(
                    i as int,
                ));
                assert(cmds_view(mod_tree_commands@.take(i + 1 as int)) =~= prev.push(
                    mod_tree_commands@[i as int]@,
                ));
                assert((own + prev).push(next_view) =~= own + prev.push(next_view));
            }
            i = i + 1;
        }
        proof {
            assert(mod_tree_commands@.take(len as int) =~= mod_tree_commands@);
            if !spec_game_run_pre(*self) {
                assert(own =~= Seq::<crate::config::CommandView>::empty());
            }
        }
        commands
    }
}

/// Whether a configuration-directory entry is a game's configuration file:
/// it ends in `.toml` and is not the main `config.toml`.
pub open spec fn spec_is_game_config_name(s: Seq<char>) -> bool {
    s.len() >= 5 && s.subrange(s.len() - 5, s.len() as int) == ".toml"@ && s != "config.toml"@
}

/// Whether a configuration-directory entry is a game's configuration file.
pub fn is_game_config_name(name: &str) -> (r: bool)
    ensures
        r == spec_is_game_config_name(name@),
{
    let len = name.unicode_len();
    if len < 5 {
        return false;
    }
    let suffix = name.substring_char(len - 5, len);
    let is_toml = suffix.to_owned() == ".toml".to_owned();
    proof {
        if is_toml {
            assert(name@.subrange(len - 5 as int, len as int) == ".toml"@);
        }
    }
    if !is_toml {
        return false;
    }
    let whole = name.to_owned();
    let main_config = "config.toml".to_owned();
    !(whole == main_config)
}

/// The initial contents of a freshly created game configuration file: the
/// game path, an optional mod-root line, and one template set with one
/// template mod entry.
pub open spec fn spec_initial_config_content(path: Seq<char>, mod_root: Option<Seq<char>>) -> Seq<
    char,
> {
    "path = \""@ + path + "\""@ + (match mod_root {
        Some(root) => "\nmod_root_path = \""@ + root + "\""@,
        None => Seq::empty(),
    }) + "\n\n[\"set id\"]\nmods = [\n    \"mod id\",\n]\n"@
}

/// Build the initial contents of a game configuration file.
pub fn initial_config_content(path: &str, mod_root: Option<&String>) -> (r: String)
    ensures
        r@ == spec_initial_config_content(
            path@,
            match mod_root {
                Some(root) => Some(root@),
                None => None,
            },
        ),
{
    let mut r = "path = \"".to_owned();
    r.append(path);
    r.append("\"");
    match mod_root {
        Some(root) => {
            r.append("\nmod_root_path = \"");
            r.append(root.as_str());
            r.append("\"");
        },
        None => {},
    }
    r.append("\n\n[\"set id\"]\nmods = [\n    \"mod id\",\n]\n");
    r
}

/// Whether `c` is a decimal digit, and its value.
pub open spec fn spec_is_digit(c: char) -> bool {
    '0' <= c && c <= '9'
}

/// The numeric value of a digit.
pub open spec fn spec_digit_value(c: char) -> int {
    c as int - '0' as int
}

/// Whether `s` is one or more decimal digits.
pub open spec fn spec_all_digits(s: Seq<char>) -> bool {
    forall|i: int| 0 <= i < s.len() ==> spec_is_digit(#[trigger] s[i])
}

/// The value of a digit string.
pub open spec fn spec_digits_value(s: Seq<char>) -> int
    decreases s.len(),
{
    if s.len() == 0 {
        0
    } else {
        spec_digits_value(s.drop_last()) * 10 + spec_digit_value(s.last())
    }
}

/// A longer digit prefix never has a smaller value.
proof fn lemma_digits_value_monotone(s: Seq<char>, i: int, j: int)
    requires
        spec_all_digits(s),
        0 <= i <= j <= s.len(),
    ensures
        spec_digits_value(s.take(i)) <= spec_digits_value(s.take(j)),
        spec_digits_value(s.take(j)) >= 0,
    decreases j - i,
{
    if i == j {
        lemma_digits_value_nonneg(s.take(i));
    } else {
        lemma_digits_value_monotone(s, i, j - 1);
        assert(s.take(j).drop_last() =~= s.take(j - 1));
        assert(spec_is_digit(s[j - 1]));
    }
}

proof fn lemma_digits_value_nonneg(s: Seq<char>)
    requires
        spec_all_digits(s),
    ensures
        spec_digits_value(s) >= 0,
    decreases s.len(),
{
    if s.len() > 0 {
        assert(forall|i: int| 0 <= i < s.len() - 1 ==> s.drop_last()[i] == #[trigger] s[i]);
        lemma_digits_value_nonneg(s.drop_last());
    }
}

/// Parse a process identifier: one or more decimal digits whose value fits
/// an `i32`. Anything else — an empty string, a stray character, a value out
/// of range — is rejected. Runtime marker files are named this way, one per
/// tracked background process.
pub fn parse_pid(s: &str) -> (r: Option<i32>)
    ensures
        match r {
            Some(v) => spec_all_digits(s@) && s@.len() > 0 && v == spec_digits_value(s@) && v >= 0,
            None => !(spec_all_digits(s@) && s@.len() > 0 && spec_digits_value(s@) <= i32::MAX),
        },
{
    let len = s.unicode_len();
    if len == 0 {
        return None;
    }
    let mut acc: u64 = 0;
    let mut i: usize = 0;
    while i < len
        invariant
            len == s@.len(),
            0 < len,
            i <= len,
            spec_all_digits(s@.take(i as int)),
            acc == spec_digits_value(s@.take(i as int)),
            acc <= i32::MAX,
        decreases len - i,
    {
        let c = s.get_char(i);
        if c < '0' || c > '9' {
            proof {
                assert(!spec_is_digit(s@[i as int]));
            }
            return None;
        }
        let d = (c as u32) - ('0' as u32);
        acc = acc * 10 + (d as u64);
        proof {
            assert(s@.take(i + 1 as int).drop_last() =~= s@.take(i as int));
            assert(s@.take(i + 1 as int).last() == s@[i as int]);
        }
        if acc > (i32::MAX as u64) {
            proof {
                if spec_all_digits(s@) {
                    lemma_digits_value_monotone(s@, i + 1 as int, len as int);
                    assert(s@.take(len as int) =~= s@);
                }
            }
            return None;
        }
        i = i + 1;
    }
    proof {
        assert(s@.take(len as int) =~= s@);
    }
    Some(acc as i32)
}

} // verus!
