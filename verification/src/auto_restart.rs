//! The set of Compose projects started at boot, and where it is stored.
use vstd::prelude::*;
use vstd::string::*;

use crate::text::{
    join, join_strings, strings_view, char_is_alphanumeric, chars_of, lemma_text_lt_irreflexive, lemma_text_lt_total,
    lemma_text_lt_transitive, owned, path_join, path_join_spec, str_eq, text_less, text_lt,
    unicode_alphanumeric, is_ascii_alnum_spec,
};

use crate::podman::compose::{compose_file_names, first_true_from, has_compose_file, ComposeProject};

verus! {

/// The file, in the repository clone, that holds the selection.
pub const CONFIG_FILE: &'static str = ".argv-podman-manager-autorestart.toml";

/// The file the Docker-based release of this manager kept the selection in; it is still
/// read.
pub const PREVIOUS_CONFIG_FILE: &'static str = ".argv-docker-manager-autorestart.toml";

/// The file Docker Manager kept the selection in; it is still read.
pub const LEGACY_CONFIG_FILE: &'static str = ".docker-manager-autorestart.toml";

/// Strictly increasing: sorted, each name once.
pub open spec fn strictly_sorted(v: Seq<Seq<char>>) -> bool {
    forall|i: int, j: int| 0 <= i < j < v.len() ==> text_lt(v[i], v[j])
}

/// The projects selected for auto-restart at boot, kept in sorted order.
#[derive(Debug)]
pub struct AutoRestartConfig {
    services: Vec<String>,
}

impl View for AutoRestartConfig {
    type V = Seq<Seq<char>>;

    closed spec fn view(&self) -> Seq<Seq<char>> {
        self.services@.map_values(|s: String| s@)
    }
}

impl Default for AutoRestartConfig {
    fn default() -> (r: Self)
        ensures
            r@ == Seq::<Seq<char>>::empty(),
    {
        let r = AutoRestartConfig { services: Vec::new() };
        assert(r@ =~= Seq::<Seq<char>>::empty());
        r
    }
}

/// Where `name` belongs in a sorted selection: the first position not below it.
fn position_of(v: &Vec<String>, name: &str) -> (i: usize)
    requires
        strictly_sorted(v@.map_values(|s: String| s@)),
    ensures
        i <= v@.len(),
        forall|k: int| 0 <= k < i ==> text_lt(#[trigger] v@[k]@, name@),
        i < v@.len() ==> !text_lt(v@[i as int]@, name@),
{
    let mut i: usize = 0;
    while i < v.len() && text_less(v[i].as_str(), name)
        invariant
            i <= v@.len(),
            forall|k: int| 0 <= k < i ==> text_lt(#[trigger] v@[k]@, name@),
        decreases v.len() - i,
    {
        i = i + 1;
    }
    i
}

impl AutoRestartConfig {
    #[verifier::type_invariant]
    spec fn sorted(&self) -> bool {
        strictly_sorted(self.services@.map_values(|s: String| s@))
    }

    /// Selects `service_name` if it was not selected and deselects it if it was; returns
    /// whether it is now selected.
    pub fn toggle(&mut self, service_name: &str) -> (enabled: bool)
        ensures
            enabled == !old(self)@.contains(service_name@),
            final(self)@.to_set() == (if enabled {
                old(self)@.to_set().insert(service_name@)
            } else {
                old(self)@.to_set().remove(service_name@)
            }),
            final(self)@.to_set() == toggled(old(self)@.to_set(), service_name@),
            strictly_sorted(final(self)@),
    {
        proof {
            use_type_invariant(&*self);
        }
        let ghost before = self@;
        let mut taken = AutoRestartConfig { services: Vec::new() };
        proof {
            assert(taken.services@.map_values(|s: String| s@) =~= Seq::<Seq<char>>::empty());
        }
        std::mem::swap(self, &mut taken);
        proof {
            use_type_invariant(&taken);
        }
        let AutoRestartConfig { mut services } = taken;
        assert(services@.map_values(|s: String| s@) == before);
        let i = position_of(&services, service_name);
        let found = i < services.len() && str_eq(services[i].as_str(), service_name);
        proof {
            assert forall|k: int| 0 <= k < before.len() implies before[k] == services@[k]@ by {}
            if !found {
                assert forall|k: int| 0 <= k < before.len() implies before[k] != service_name@ by {
                    if k < i {
                        lemma_text_lt_irreflexive(service_name@);
                    } else {
                        lemma_text_lt_total(services@[i as int]@, service_name@);
                        if k > i {
                            assert(text_lt(before[i as int], before[k]));
                            if before[k] == service_name@ {
                                lemma_text_lt_total(before[i as int], service_name@);
                            }
                        }
                    }
                }
            }
        }
        if found {
            services.remove(i);
            let ghost after = services@.map_values(|s: String| s@);
            proof {
                assert(after =~= before.remove(i as int));
                assert forall|k: int| 0 <= k < before.len() && k != i implies before[k]
                    != service_name@ by {
                    if k < i {
                        assert(text_lt(before[k], before[i as int]));
                        lemma_text_lt_irreflexive(service_name@);
                    } else {
                        assert(text_lt(before[i as int], before[k]));
                        lemma_text_lt_irreflexive(service_name@);
                    }
                }
                assert(after.to_set() =~= before.to_set().remove(service_name@)) by {
                    assert forall|x: Seq<char>| after.contains(x) implies before.contains(x)
                        && x != service_name@ by {
                        let k = choose|k: int| 0 <= k < after.len() && after[k] == x;
                        if k < i {
                            assert(before[k] == x);
                        } else {
                            assert(before[k + 1] == x);
                        }
                    }
                    assert forall|x: Seq<char>|
                        before.contains(x) && x != service_name@ implies after.contains(x) by {
                        let k = choose|k: int| 0 <= k < before.len() && before[k] == x;
                        if k < i {
                            assert(after[k] == x);
                        } else {
                            assert(k != i);
                            assert(after[k - 1] == x);
                        }
                    }
                }
                assert(before.contains(service_name@)) by {
                    assert(before[i as int] == service_name@);
                }
                assert(strictly_sorted(after)) by {
                    assert forall|a: int, b: int| 0 <= a < b < after.len() implies text_lt(
                        after[a],
                        after[b],
                    ) by {
                        let a2 = if a < i {
                            a
                        } else {
                            a + 1
                        };
                        let b2 = if b < i {
                            b
                        } else {
                            b + 1
                        };
                        assert(after[a] == before[a2]);
                        assert(after[b] == before[b2]);
                    }
                }
            }
            *self = AutoRestartConfig { services };
            false
        } else {
            services.insert(i, owned(service_name));
            let ghost after = services@.map_values(|s: String| s@);
            proof {
                assert(after =~= before.insert(i as int, service_name@));
                assert(!before.contains(service_name@));
                assert(after.to_set() =~= before.to_set().insert(service_name@)) by {
                    assert forall|x: Seq<char>| after.contains(x) implies before.contains(x)
                        || x == service_name@ by {
                        let k = choose|k: int| 0 <= k < after.len() && after[k] == x;
                        if k < i {
                            assert(before[k] == x);
                        } else if k > i {
                            assert(before[k - 1] == x);
                        }
                    }
                    assert forall|x: Seq<char>|
                        before.contains(x) || x == service_name@ implies after.contains(x) by {
                        if x == service_name@ {
                            assert(after[i as int] == x);
                        } else {
                            let k = choose|k: int| 0 <= k < before.len() && before[k] == x;
                            if k < i {
                                assert(after[k] == x);
                            } else {
                                assert(after[k + 1] == x);
                            }
                        }
                    }
                }
                assert(strictly_sorted(after)) by {
                    assert forall|a: int, b: int| 0 <= a < b < after.len() implies text_lt(
                        after[a],
                        after[b],
                    ) by {
                        if a < i && b < i {
                            assert(after[a] == before[a] && after[b] == before[b]);
                        } else if a < i && b == i {
                            assert(after[a] == before[a]);
                        } else if a < i && b > i {
                            assert(after[a] == before[a] && after[b] == before[b - 1]);
                        } else if a == i {
                            assert(after[b] == before[b - 1]);
                            lemma_text_lt_total(before[i as int], service_name@);
                            if b - 1 > i {
                                assert(text_lt(before[i as int], before[b - 1]));
                                if before[i as int] != service_name@ {
                                    lemma_text_lt_transitive(
                                        service_name@,
                                        before[i as int],
                                        before[b - 1],
                                    );
                                }
                            }
                        } else {
                            assert(after[a] == before[a - 1] && after[b] == before[b - 1]);
                        }
                    }
                }
            }
            *self = AutoRestartConfig { services };
            true
        }
    }

    pub fn contains(&self, service_name: &str) -> (b: bool)
        ensures
            b == self@.contains(service_name@),
    {
        let mut i: usize = 0;
        while i < self.services.len()
            invariant
                i <= self.services@.len(),
                self@ == self.services@.map_values(|s: String| s@),
                forall|k: int| 0 <= k < i ==> self.services@[k]@ != service_name@,
            decreases self.services.len() - i,
        {
            if str_eq(self.services[i].as_str(), service_name) {
                assert(self@[i as int] == service_name@);
                return true;
            }
            i = i + 1;
        }
        false
    }

    pub fn len(&self) -> (n: usize)
        ensures
            n == self@.len(),
            n == self@.to_set().len(),
    {
        proof {
            use_type_invariant(self);
            assert(self@.no_duplicates()) by {
                assert forall|a: int, b: int|
                    0 <= a < self@.len() && 0 <= b < self@.len() && a != b implies self@[a]
                    != self@[b] by {
                    if a < b {
                        assert(text_lt(self@[a], self@[b]));
                        lemma_text_lt_irreflexive(self@[a]);
                    } else {
                        assert(text_lt(self@[b], self@[a]));
                        lemma_text_lt_irreflexive(self@[b]);
                    }
                }
            }
            self@.unique_seq_to_set();
        }
        self.services.len()
    }

    pub fn is_empty(&self) -> (b: bool)
        ensures
            b == (self@.len() == 0),
    {
        self.services.len() == 0
    }

    /// The selected names, in increasing order.
    pub fn services(&self) -> (r: Vec<String>)
        ensures
            r@.map_values(|s: String| s@) == self@,
            strictly_sorted(self@),
    {
        proof {
            use_type_invariant(self);
        }
        let r = self.services.clone();
        assert(r@.map_values(|s: String| s@) =~= self@);
        r
    }

    /// The selection holding exactly the given names.
    pub fn from_services(names: &Vec<String>) -> (r: Self)
        ensures
            r@.to_set() == names@.map_values(|s: String| s@).to_set(),
            strictly_sorted(r@),
    {
        let mut config = AutoRestartConfig::default();
        let ghost all = names@.map_values(|s: String| s@);
        let mut k: usize = 0;
        assert(all.take(0).to_set() =~= Set::<Seq<char>>::empty());
        assert(config@.to_set() =~= Set::<Seq<char>>::empty());
        while k < names.len()
            invariant
                k <= names@.len(),
                all == names@.map_values(|s: String| s@),
                config@.to_set() == all.take(k as int).to_set(),
            decreases names.len() - k,
        {
            let name = names[k].as_str();
            if !config.contains(name) {
                config.toggle(name);
            }
            proof {
                assert(all.take(k + 1) =~= all.take(k as int).push(name@));
                let pre = all.take(k as int);
                let cur = all.take(k + 1);
                assert forall|x: Seq<char>| cur.to_set().contains(x) == pre.to_set().insert(
                    name@,
                ).contains(x) by {
                    if cur.contains(x) {
                        let j = choose|j: int| 0 <= j < cur.len() && cur[j] == x;
                        if j < k {
                            assert(pre[j] == x);
                        }
                    }
                    if pre.contains(x) {
                        let j = choose|j: int| 0 <= j < pre.len() && pre[j] == x;
                        assert(cur[j] == x);
                    }
                    if x == name@ {
                        assert(cur[k as int] == x);
                    }
                }
                assert(cur.to_set() =~= pre.to_set().insert(name@));
                if config@.to_set().contains(name@) {
                }
            }
            k = k + 1;
        }
        assert(all.take(names.len() as int) =~= all);
        proof {
            use_type_invariant(&config);
        }
        config
    }
}

/// The file holding the selection of the clone at `project_root`.
pub fn config_path(project_root: &str) -> (r: String)
    ensures
        r@ == path_join_spec(project_root@, CONFIG_FILE@),
{
    path_join(project_root, CONFIG_FILE)
}

/// The file the Docker-based release of this manager held the selection in.
pub fn previous_config_path(project_root: &str) -> (r: String)
    ensures
        r@ == path_join_spec(project_root@, PREVIOUS_CONFIG_FILE@),
{
    path_join(project_root, PREVIOUS_CONFIG_FILE)
}

/// The file Docker Manager held the selection in.
pub fn legacy_config_path(project_root: &str) -> (r: String)
    ensures
        r@ == path_join_spec(project_root@, LEGACY_CONFIG_FILE@),
{
    path_join(project_root, LEGACY_CONFIG_FILE)
}

/// The file the selection is first written to before it replaces the real one.
pub fn temporary_config_path(project_root: &str) -> (r: String)
    ensures
        r@ == path_join_spec(project_root@, CONFIG_FILE@ + ".tmp"@),
{
    let mut name = owned(CONFIG_FILE);
    let suffix = ".tmp";
    proof {
        reveal_strlit(".tmp");
    }
    name.append(suffix);
    path_join(project_root, name.as_str())
}

/// A project name selected for auto-restart: not empty, letters, digits, `-` and `_` only.
pub open spec fn valid_service_spec(name: Seq<char>) -> bool {
    name.len() > 0 && forall|i: int|
        0 <= i < name.len() ==> unicode_alphanumeric(#[trigger] name[i]) || name[i] == '-'
            || name[i] == '_'
}

/// A name made of ASCII letters, digits, `-` and `_` only, and not empty.
pub open spec fn plain_service_name(name: Seq<char>) -> bool {
    name.len() > 0 && forall|i: int|
        0 <= i < name.len() ==> is_ascii_alnum_spec(#[trigger] name[i]) || name[i] == '-'
            || name[i] == '_'
}

/// Whether a name holds a character that could lead out of a directory: `/` or `.`.
pub open spec fn has_path_char(name: Seq<char>) -> bool {
    exists|i: int| 0 <= i < name.len() && (#[trigger] name[i] == '/' || name[i] == '.')
}

/// Checks a selected project name, before any path is built from it. Plain ASCII names
/// pass; a name holding `/` or `.` is refused.
pub fn validate_service_name(service_name: &str) -> (r: Result<(), String>)
    ensures
        r is Ok <==> valid_service_spec(service_name@),
        r matches Err(msg) ==> msg@ == "invalid auto-restart service name: "@ + service_name@,
        plain_service_name(service_name@) ==> (r is Ok),
        has_path_char(service_name@) ==> (r is Err),
{
    let v = chars_of(service_name);
    let mut ok = v.len() > 0;
    let mut i: usize = 0;
    while i < v.len()
        invariant
            i <= v.len(),
            v@ == service_name@,
            ok == (v.len() > 0 && forall|k: int|
                0 <= k < i ==> unicode_alphanumeric(#[trigger] v@[k]) || v@[k] == '-' || v@[k]
                    == '_'),
            forall|k: int|
                0 <= k < i ==> ((#[trigger] v@[k]) as u32) < 128 ==> unicode_alphanumeric(v@[k])
                    == is_ascii_alnum_spec(v@[k]),
        decreases v.len() - i,
    {
        let c = v[i];
        let alnum = char_is_alphanumeric(c);
        if !(alnum || c == '-' || c == '_') {
            ok = false;
        }
        i = i + 1;
    }
    proof {
        if has_path_char(service_name@) {
            let k = choose|k: int|
                0 <= k < service_name@.len() && (#[trigger] service_name@[k] == '/'
                    || service_name@[k] == '.');
            assert(v@[k] == '/' || v@[k] == '.');
            assert((v@[k] as u32) < 128);
        }
        if plain_service_name(service_name@) {
            assert forall|k: int| 0 <= k < v@.len() implies unicode_alphanumeric(#[trigger] v@[k])
                || v@[k] == '-' || v@[k] == '_' by {
                assert(is_ascii_alnum_spec(service_name@[k]) || service_name@[k] == '-'
                    || service_name@[k] == '_');
                if is_ascii_alnum_spec(v@[k]) {
                    assert((v@[k] as u32) < 128);
                }
            }
        }
    }
    if ok {
        Ok(())
    } else {
        let prefix = "invalid auto-restart service name: ";
        proof {
            reveal_strlit("invalid auto-restart service name: ");
        }
        let mut msg = owned(prefix);
        msg.append(service_name);
        Err(msg)
    }
}

/// The compose file a selected project is started from: the first of the project's
/// compose files (see [`ComposeProject::compose_file_candidates`]) that is a file, given
/// which are; where none is, an error naming the `compose.yml` the project should hold.
pub fn service_compose_path(project_root: &str, service_name: &str, is_file: &Vec<bool>) -> (r: Result<
    String,
    String,
>)
    requires
        is_file@.len() == 4,
    ensures
        r is Ok <==> first_true_from(is_file@, 0) < 4,
        r matches Ok(p) ==> p@ == path_join_spec(
            path_join_spec(path_join_spec(project_root@, "containers"@), service_name@),
            compose_file_names()[first_true_from(is_file@, 0)],
        ),
        r matches Err(m) ==> m@ == "compose file not found: "@ + path_join_spec(
            path_join_spec(path_join_spec(project_root@, "containers"@), service_name@),
            "compose.yml"@,
        ),
{
    let project = ComposeProject::at(project_root, service_name);
    let path = project.compose_file(is_file);
    if has_compose_file(is_file) {
        Ok(path)
    } else {
        let prefix = "compose file not found: ";
        proof {
            reveal_strlit("compose file not found: ");
        }
        let mut msg = owned(prefix);
        msg.append(path.as_str());
        Err(msg)
    }
}

/// How starting the selected projects ended, given the error of each project that failed
/// to start, in order: success where none failed, else one error holding them all,
/// separated by "; ".
pub fn start_outcome(failures: &Vec<String>) -> (r: Result<(), String>)
    ensures
        r is Ok <==> failures@.len() == 0,
        r matches Err(m) ==> m@ == join(strings_view(failures@), "; "@),
{
    if failures.len() == 0 {
        Ok(())
    } else {
        Err(join_strings(failures, "; "))
    }
}

/// The files the selection is read from, in the order they are looked at: the current
/// one, then the two earlier ones, which are still read for migration.
pub open spec fn config_sources_spec(project_root: Seq<char>) -> Seq<Seq<char>> {
    seq![
        path_join_spec(project_root, CONFIG_FILE@),
        path_join_spec(project_root, PREVIOUS_CONFIG_FILE@),
        path_join_spec(project_root, LEGACY_CONFIG_FILE@),
    ]
}

/// The files the selection is read from, in order (see [`config_sources_spec`]).
pub fn config_sources(project_root: &str) -> (r: Vec<String>)
    ensures
        strings_view(r@) == config_sources_spec(project_root@),
{
    let mut r: Vec<String> = Vec::new();
    r.push(config_path(project_root));
    r.push(previous_config_path(project_root));
    r.push(legacy_config_path(project_root));
    assert(strings_view(r@) =~= config_sources_spec(project_root@));
    r
}

/// What reading a selection file gave.
pub enum ConfigFile {
    Found(String),
    Missing,
    Unreadable,
}

/// What loading the selection does next.
#[derive(Debug)]
pub enum ConfigChoice {
    /// Parse this text, read from the source at this position.
    Parse { text: String, source: usize },
    /// No source exists: the selection is empty.
    Empty,
    /// Every source read so far is missing: read the next one.
    ReadNext,
    /// Reading the source at this position failed.
    Fail { source: usize },
}

/// The plain values of a [`ConfigFile`]: `None` for a missing file, `Some(None)` for one
/// that could not be read.
pub open spec fn config_file_view(f: ConfigFile) -> Option<Option<Seq<char>>> {
    match f {
        ConfigFile::Found(t) => Some(Some(t@)),
        ConfigFile::Missing => None,
        ConfigFile::Unreadable => Some(None),
    }
}

/// The plain values of a [`ConfigChoice`].
pub enum ConfigChoiceView {
    Parse { text: Seq<char>, source: nat },
    Empty,
    ReadNext,
    Fail { source: nat },
}

pub open spec fn config_choice_view(c: ConfigChoice) -> ConfigChoiceView {
    match c {
        ConfigChoice::Parse { text, source } => ConfigChoiceView::Parse {
            text: text@,
            source: source as nat,
        },
        ConfigChoice::Empty => ConfigChoiceView::Empty,
        ConfigChoice::ReadNext => ConfigChoiceView::ReadNext,
        ConfigChoice::Fail { source } => ConfigChoiceView::Fail { source: source as nat },
    }
}

/// Which source the selection comes from, given what reading the sources from position
/// `i` on gave: the first that exists is parsed, or fails where it cannot be read; where
/// all read so far are missing, the next is read, and where all three are, the selection
/// is empty.
pub open spec fn choice_from(reads: Seq<Option<Option<Seq<char>>>>, i: int) -> ConfigChoiceView
    decreases reads.len() - i,
{
    if i < 0 || i >= reads.len() {
        if reads.len() < 3 {
            ConfigChoiceView::ReadNext
        } else {
            ConfigChoiceView::Empty
        }
    } else {
        match reads[i] {
            Some(Some(t)) => ConfigChoiceView::Parse { text: t, source: i as nat },
            Some(None) => ConfigChoiceView::Fail { source: i as nat },
            None => choice_from(reads, i + 1),
        }
    }
}

/// The plain values of what reading the sources gave.
pub open spec fn reads_view(reads: Seq<ConfigFile>) -> Seq<Option<Option<Seq<char>>>> {
    reads.map_values(|f: ConfigFile| config_file_view(f))
}

/// Decides, from what reading the first sources gave, in order, what loading the
/// selection does next (see [`choice_from`]).
pub fn choose_config(reads: &Vec<ConfigFile>) -> (c: ConfigChoice)
    requires
        reads@.len() <= 3,
    ensures
        config_choice_view(c) == choice_from(reads_view(reads@), 0),
{
    let ghost rv = reads_view(reads@);
    let mut i: usize = 0;
    while i < reads.len()
        invariant
            i <= reads@.len(),
            reads@.len() <= 3,
            rv == reads_view(reads@),
            choice_from(rv, 0) == choice_from(rv, i as int),
        decreases reads.len() - i,
    {
        assert(rv[i as int] == config_file_view(reads@[i as int]));
        match &reads[i] {
            ConfigFile::Found(text) => {
                return ConfigChoice::Parse { text: text.clone(), source: i };
            },
            ConfigFile::Unreadable => {
                return ConfigChoice::Fail { source: i };
            },
            ConfigFile::Missing => {},
        }
        i = i + 1;
    }
    if reads.len() < 3 {
        ConfigChoice::ReadNext
    } else {
        ConfigChoice::Empty
    }
}

/// Whether every source before position `i` is missing.
pub open spec fn all_missing_before(reads: Seq<Option<Option<Seq<char>>>>, i: int) -> bool {
    forall|k: int| 0 <= k < i ==> #[trigger] reads[k] == None::<Option<Seq<char>>>
}

/// Whether a choice parses, or fails on, only a source before which every source is
/// missing, and takes that source as read.
pub open spec fn respects_order(reads: Seq<Option<Option<Seq<char>>>>, c: ConfigChoiceView) -> bool {
    match c {
        ConfigChoiceView::Parse { text, source } => source < reads.len() && reads[source as int]
            == Some(Some(text)) && all_missing_before(reads, source as int),
        ConfigChoiceView::Fail { source } => source < reads.len() && reads[source as int] == Some(
            None::<Seq<char>>,
        ) && all_missing_before(reads, source as int),
        _ => true,
    }
}

/// Whether a current file that exists is what the choice parses.
pub open spec fn current_wins(reads: Seq<Option<Option<Seq<char>>>>, c: ConfigChoiceView) -> bool {
    reads.len() > 0 ==> match reads[0] {
        Some(Some(t)) => c == (ConfigChoiceView::Parse { text: t, source: 0 }),
        _ => true,
    }
}

/// Law: a source is parsed, or fails the load, only where every source before it is
/// missing; so the current file, where it exists, always wins, and an earlier file is
/// read only where all newer ones are missing.
pub proof fn law_current_file_wins(reads: Seq<Option<Option<Seq<char>>>>)
    requires
        reads.len() <= 3,
    ensures
        respects_order(reads, choice_from(reads, 0)),
        current_wins(reads, choice_from(reads, 0)),
{
    lemma_choice_from(reads, 0);
}

proof fn lemma_choice_from(reads: Seq<Option<Option<Seq<char>>>>, i: int)
    requires
        0 <= i <= reads.len(),
        all_missing_before(reads, i),
    ensures
        respects_order(reads, choice_from(reads, i)),
    decreases reads.len() - i,
{
    if i < reads.len() {
        if reads[i] == None::<Option<Seq<char>>> {
            assert forall|k: int| 0 <= k < i + 1 implies #[trigger] reads[k] == None::<
                Option<Seq<char>>,
            > by {
                if k < i {
                    assert(all_missing_before(reads, i));
                }
            }
            lemma_choice_from(reads, i + 1);
        }
    }
}

/// Law: toggling a project twice leaves the selection as it was, and the first toggle
/// reports whether it was selected.
pub proof fn law_toggle_twice(s: Set<Seq<char>>, name: Seq<char>)
    ensures
        ({
            let once = if s.contains(name) {
                s.remove(name)
            } else {
                s.insert(name)
            };
            let twice = if once.contains(name) {
                once.remove(name)
            } else {
                once.insert(name)
            };
            twice == s && once.contains(name) != s.contains(name)
        }),
{
    let once = if s.contains(name) {
        s.remove(name)
    } else {
        s.insert(name)
    };
    let twice = if once.contains(name) {
        once.remove(name)
    } else {
        once.insert(name)
    };
    assert(twice =~= s);
}

/// The selection after toggling `name` in `s`, as [`AutoRestartConfig::toggle`] leaves it.
pub open spec fn toggled(s: Set<Seq<char>>, name: Seq<char>) -> Set<Seq<char>> {
    if s.contains(name) {
        s.remove(name)
    } else {
        s.insert(name)
    }
}

/// The selection after toggling each of `names` in turn, starting from `s`.
pub open spec fn toggled_all(s: Set<Seq<char>>, names: Seq<Seq<char>>) -> Set<Seq<char>>
    decreases names.len(),
{
    if names.len() == 0 {
        s
    } else {
        toggled(toggled_all(s, names.drop_last()), names.last())
    }
}

/// How many of `names` are `n`.
pub open spec fn times_named(names: Seq<Seq<char>>, n: Seq<char>) -> nat
    decreases names.len(),
{
    if names.len() == 0 {
        0
    } else {
        times_named(names.drop_last(), n) + if names.last() == n {
            1nat
        } else {
            0nat
        }
    }
}

/// Law: after any sequence of toggles, a project is selected exactly when it was selected
/// before and toggled an even number of times, or was not and was toggled an odd number of
/// times; from the empty selection, exactly the projects toggled an odd number of times
/// are selected, whatever the toggles of other projects and their order.
pub proof fn law_toggle_parity(s: Set<Seq<char>>, names: Seq<Seq<char>>, n: Seq<char>)
    ensures
        toggled_all(s, names).contains(n) == (s.contains(n) != (times_named(names, n) % 2 == 1)),
        toggled_all(Set::empty(), names).contains(n) == (times_named(names, n) % 2 == 1),
    decreases names.len(),
{
    if names.len() > 0 {
        law_toggle_parity(s, names.drop_last(), n);
        law_toggle_parity(Set::empty(), names.drop_last(), n);
    }
}

} // verus!
