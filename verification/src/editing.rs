//! The stored configurations: listing, editing, saving, deleting and copying
//! them.
use crate::state::{status_actions, AppModel, AppView, Step};
use crate::table::name_views;
use crate::text::{
    all_name_chars, blank, decimal, decimal_text, is_blank, lemma_decimal_injective,
    only_name_chars, trim, trimmed,
};
use crate::types::{
    config_views, configs_or_none, joined, listed, listing_outcome, script, text_outcome, Action,
    ActionModel, ConfigEntry, ConfigModel, EntryModel, FrpcConfigMeta, Listing, MessageLevel, Page,
    PageModel,
};
use vstd::prelude::*;
use vstd::seq_lib::*;
use vstd::set_lib::*;
use vstd::string::*;

verus! {

/// How many configurations a page of the list shows.
pub const CONFIGS_PER_PAGE: usize = 8;

/// How many pages a list of `n` configurations has.
pub open spec fn total_pages(n: nat) -> nat {
    ((n + CONFIGS_PER_PAGE - 1) / (CONFIGS_PER_PAGE as int)) as nat
}

/// The first configuration of a name.
pub open spec fn first_config(configs: Seq<ConfigModel>, name: Seq<char>) -> Option<ConfigModel>
    decreases configs.len(),
{
    if configs.len() == 0 {
        None
    } else if configs.first().name == name {
        Some(configs.first())
    } else {
        first_config(configs.drop_first(), name)
    }
}

/// The names of configurations.
pub open spec fn config_names(configs: Seq<ConfigModel>) -> Seq<Seq<char>> {
    configs.map_values(|c: ConfigModel| c.name)
}

/// The name of the first copy.
pub open spec fn plain_copy(name: Seq<char>) -> Seq<char> {
    name + "-copy"@
}

/// The name of the copy with number `n`.
pub open spec fn numbered_copy(name: Seq<char>, n: nat) -> Seq<char> {
    name + "-copy-"@ + decimal(n)
}

/// Whether `n` is the least number, from 2 on, that no copy has yet.
pub open spec fn is_next_number(existing: Seq<Seq<char>>, name: Seq<char>, n: nat) -> bool {
    &&& n >= 2
    &&& !existing.contains(numbered_copy(name, n))
    &&& forall|m: nat| 2 <= m < n ==> existing.contains(#[trigger] numbered_copy(name, m))
}

/// The name for a copy: `name-copy`, or else `name-copy-2`, `name-copy-3` and
/// so on, the first of them that is free.
pub open spec fn copy_name(existing: Seq<Seq<char>>, name: Seq<char>) -> Seq<char> {
    if existing.contains(plain_copy(name)) {
        numbered_copy(name, choose|n: nat| is_next_number(existing, name, n))
    } else {
        plain_copy(name)
    }
}

/// What came of reading a configuration: the server address and the proxies.
pub open spec fn toml_outcome(res: Result<(String, Vec<String>), String>) -> Result<
    (Seq<char>, Seq<Seq<char>>),
    Seq<char>,
> {
    match res {
        Ok((server_addr, proxies)) => Ok((server_addr@, name_views(proxies@))),
        Err(e) => Err(e@),
    }
}

impl AppModel {
    /// The state with these configurations, on a page of the list that there is.
    pub open spec fn reload(self, configs: Seq<ConfigModel>) -> AppModel {
        let pages = total_pages(configs.len());
        AppModel {
            configs,
            config_page: if self.config_page > 0 && self.config_page >= pages {
                if pages > 0 {
                    (pages - 1) as nat
                } else {
                    0
                }
            } else {
                self.config_page
            },
            ..self
        }
    }

    /// Opens the editor on a new configuration.
    pub open spec fn open_add_config(self) -> Step {
        Step {
            state: AppModel {
                edit_name: Seq::empty(),
                edit_content: Seq::empty(),
                edit_auto_start: true,
                ..self
            }.switch_page(PageModel::ConfigEditor { original_name: None }),
            actions: seq![
                ActionModel::SetNameInput(Seq::empty()),
                ActionModel::SetContentInput(Seq::empty()),
            ],
        }
    }

    /// Opens the editor on a stored configuration.
    pub open spec fn open_edit_config(
        self,
        name: Seq<char>,
        content: Result<Seq<char>, Seq<char>>,
    ) -> Step {
        let text = match content {
            Ok(text) => text,
            Err(_) => Seq::empty(),
        };
        Step {
            state: AppModel {
                edit_name: name,
                edit_content: text,
                edit_auto_start: match first_config(self.configs, name) {
                    Some(c) => c.auto_start,
                    None => false,
                },
                ..self
            }.switch_page(PageModel::ConfigEditor { original_name: Some(name) }),
            actions: seq![ActionModel::SetNameInput(name), ActionModel::SetContentInput(text)],
        }
    }

    /// Has what is edited checked as TOML. Where it is to replace a
    /// configuration of another name, that one is deleted.
    pub open spec fn store_edited(self, name: Seq<char>) -> Step {
        Step {
            state: self,
            actions: (match self.page {
                PageModel::ConfigEditor { original_name: Some(orig) } if orig != name => seq![
                    ActionModel::DeleteReplaced(orig),
                ],
                _ => Seq::empty(),
            }) + seq![ActionModel::ValidateToml { name, content: self.edit_content }],
        }
    }

    /// Begins to save what stands in the editor, under its name without the
    /// white space at the ends: refuses an empty name, a name with other
    /// characters than names have, and a blank content.
    pub open spec fn save_config(self, name_text: Seq<char>, content_text: Seq<char>) -> Step {
        let edited = AppModel { edit_name: name_text, edit_content: content_text, ..self };
        let name = trimmed(name_text);
        if name.len() == 0 {
            edited.set_status_message("配置名称不能为空"@, MessageLevel::Error)
        } else if !all_name_chars(name) {
            edited.set_status_message(
                "配置名称只能包含字母、数字、下划线和连字符"@,
                MessageLevel::Error,
            )
        } else if is_blank(content_text) {
            edited.set_status_message("配置内容不能为空"@, MessageLevel::Error)
        } else if self.page == (PageModel::ConfigEditor { original_name: None }) {
            edited.ask(ActionModel::CheckConfigExists(name))
        } else {
            edited.store_edited(name)
        }
    }

    /// Refuses to save a new configuration under a name that is taken.
    pub open spec fn save_config_checked(self, name: Seq<char>, exists: bool) -> Step {
        if exists {
            self.set_status_message("配置 '"@ + name + "' 已存在"@, MessageLevel::Error)
        } else {
            self.store_edited(name)
        }
    }

    /// Stores what is edited, with what was read in it.
    pub open spec fn save_config_validated(
        self,
        name: Seq<char>,
        res: Result<(Seq<char>, Seq<Seq<char>>), Seq<char>>,
    ) -> Step {
        match res {
            Ok((server_addr, proxies)) => self.ask(
                ActionModel::SaveConfig(
                    EntryModel {
                        name,
                        content: self.edit_content,
                        auto_start: self.edit_auto_start,
                        server_addr,
                        proxies,
                    },
                ),
            ),
            Err(e) => self.set_status_message("保存失败："@ + e, MessageLevel::Error),
        }
    }

    /// Goes back to the list when a configuration was stored.
    pub open spec fn config_saved(
        self,
        name: Seq<char>,
        res: Result<Seq<ConfigModel>, Seq<char>>,
    ) -> Step {
        match res {
            Ok(configs) => Step {
                state: self.reload(configs).switch_page(PageModel::ConfigList).with_status(
                    "配置 '"@ + name + "' 保存成功"@,
                    MessageLevel::Success,
                ),
                actions: seq![ActionModel::Notify] + status_actions(),
            },
            Err(e) => self.set_status_message("保存失败："@ + e, MessageLevel::Error),
        }
    }

    /// Stops the process of a configuration, and deletes the configuration.
    pub open spec fn delete_config(self, name: Seq<char>) -> Step {
        Step {
            state: self.without_running(name),
            actions: (if self.running.contains_key(name) {
                seq![ActionModel::StopProcess { name, pid: self.running[name] }]
            } else {
                Seq::empty()
            }) + seq![ActionModel::DeleteConfig(name)],
        }
    }

    /// Reports what came of deleting a configuration.
    pub open spec fn config_deleted(
        self,
        name: Seq<char>,
        res: Result<Seq<ConfigModel>, Seq<char>>,
    ) -> Step {
        match res {
            Ok(configs) => self.reload(configs).set_status_message(
                "配置 '"@ + name + "' 已删除"@,
                MessageLevel::Success,
            ).preceded_by(seq![ActionModel::Notify]),
            Err(e) => self.set_status_message("删除失败："@ + e, MessageLevel::Error),
        }
    }

    /// Stores a copy of a configuration under a name that is free, with what
    /// is known of its source.
    pub open spec fn duplicate_config(
        self,
        name: Seq<char>,
        content: Result<Seq<char>, Seq<char>>,
    ) -> Step {
        match content {
            Ok(content) => self.ask(
                ActionModel::SaveCopy(
                    match first_config(self.configs, name) {
                        Some(c) => EntryModel {
                            name: copy_name(config_names(self.configs), name),
                            content,
                            auto_start: c.auto_start,
                            server_addr: c.server_addr,
                            proxies: c.proxies,
                        },
                        None => EntryModel {
                            name: copy_name(config_names(self.configs), name),
                            content,
                            auto_start: false,
                            server_addr: Seq::empty(),
                            proxies: Seq::empty(),
                        },
                    },
                ),
            ),
            Err(e) => self.set_status_message("复制失败："@ + e, MessageLevel::Error),
        }
    }

    /// Reports what came of storing a copy.
    pub open spec fn config_copied(
        self,
        new_name: Seq<char>,
        res: Result<Seq<ConfigModel>, Seq<char>>,
    ) -> Step {
        match res {
            Ok(configs) => self.reload(configs).set_status_message(
                "已复制配置为 '"@ + new_name + "'"@,
                MessageLevel::Success,
            ).preceded_by(seq![ActionModel::Notify]),
            Err(e) => self.set_status_message("复制失败："@ + e, MessageLevel::Error),
        }
    }
}

/// A sequence without repetitions is no longer than one that holds all of its
/// elements.
proof fn lemma_pigeonhole<A>(distinct: Seq<A>, holder: Seq<A>)
    requires
        distinct.no_duplicates(),
        forall|i: int| 0 <= i < distinct.len() ==> holder.contains(#[trigger] distinct[i]),
    ensures
        distinct.len() <= holder.len(),
{
    distinct.unique_seq_to_set();
    holder.lemma_cardinality_of_set();
    seq_to_set_is_finite(holder);
    assert(distinct.to_set().subset_of(holder.to_set()));
    lemma_len_subset(distinct.to_set(), holder.to_set());
}

/// Copies with different numbers have different names.
proof fn lemma_numbered_copy_injective(name: Seq<char>, a: nat, b: nat)
    requires
        numbered_copy(name, a) == numbered_copy(name, b),
    ensures
        a == b,
{
    let stem = name + "-copy-"@;
    assert(numbered_copy(name, a).skip(stem.len() as int) =~= decimal(a));
    assert(numbered_copy(name, b).skip(stem.len() as int) =~= decimal(b));
    lemma_decimal_injective(a, b);
}

/// As many numbers in a row can be taken as there are configurations.
proof fn lemma_numbers_taken(existing: Seq<Seq<char>>, name: Seq<char>, n: nat)
    requires
        n >= 2,
        forall|m: nat| 2 <= m < n ==> existing.contains(#[trigger] numbered_copy(name, m)),
    ensures
        n <= existing.len() + 2,
{
    let taken = Seq::new((n - 2) as nat, |k: int| numbered_copy(name, (k + 2) as nat));
    assert forall|i: int, j: int|
        0 <= i < taken.len() && 0 <= j < taken.len() && i != j implies taken[i] != taken[j] by {
        if taken[i] == taken[j] {
            lemma_numbered_copy_injective(name, (i + 2) as nat, (j + 2) as nat);
        }
    }
    lemma_pigeonhole(taken, existing);
}

/// There is exactly one number for the next copy.
proof fn lemma_next_number_unique(existing: Seq<Seq<char>>, name: Seq<char>, a: nat, b: nat)
    requires
        is_next_number(existing, name, a),
        is_next_number(existing, name, b),
    ensures
        a == b,
{
    if a < b {
        assert(existing.contains(numbered_copy(name, a)));
    } else if b < a {
        assert(existing.contains(numbered_copy(name, b)));
    }
}

/// There is a number for the next copy.
pub proof fn lemma_next_number_exists(existing: Seq<Seq<char>>, name: Seq<char>)
    ensures
        exists|n: nat| is_next_number(existing, name, n),
{
    lemma_next_number_from(existing, name, 2);
}

proof fn lemma_next_number_from(existing: Seq<Seq<char>>, name: Seq<char>, n: nat)
    requires
        n >= 2,
        forall|m: nat| 2 <= m < n ==> existing.contains(#[trigger] numbered_copy(name, m)),
    ensures
        exists|k: nat| is_next_number(existing, name, k),
    decreases existing.len() + 2 - n,
{
    if existing.contains(numbered_copy(name, n)) {
        lemma_numbers_taken(existing, name, n + 1);
        lemma_next_number_from(existing, name, n + 1);
    } else {
        assert(is_next_number(existing, name, n));
    }
}

/// How many pages a list of `n` configurations has.
fn page_count(n: usize) -> (res: usize)
    ensures
        res == total_pages(n as nat),
{
    let full: usize = n / CONFIGS_PER_PAGE;
    if n % CONFIGS_PER_PAGE == 0 {
        full
    } else {
        full + 1
    }
}

/// The first configuration of a name.
fn find_config(configs: &Vec<FrpcConfigMeta>, name: &String) -> (res: Option<usize>)
    ensures
        match res {
            Some(i) => i < configs@.len() && first_config(config_views(configs@), name@) == Some(
                configs@[i as int]@,
            ),
            None => first_config(config_views(configs@), name@) is None,
        },
{
    let ghost all = config_views(configs@);
    let mut i: usize = 0;
    assert(all.skip(0) =~= all);
    while i < configs.len()
        invariant
            i <= configs.len(),
            all == config_views(configs@),
            first_config(all, name@) == first_config(all.skip(i as int), name@),
        decreases configs.len() - i,
    {
        assert(all.skip(i as int).first() == configs@[i as int]@);
        assert(all.skip(i as int).drop_first() =~= all.skip(i + 1));
        if configs[i].name == *name {
            return Some(i);
        }
        i = i + 1;
    }
    None
}

/// Whether a configuration has the name.
fn name_taken(configs: &Vec<FrpcConfigMeta>, name: &String) -> (res: bool)
    ensures
        res == config_names(config_views(configs@)).contains(name@),
{
    let ghost names = config_names(config_views(configs@));
    let mut i: usize = 0;
    while i < configs.len()
        invariant
            i <= configs.len(),
            names == config_names(config_views(configs@)),
            forall|j: int| 0 <= j < i ==> names[j] != name@,
        decreases configs.len() - i,
    {
        if configs[i].name == *name {
            assert(names[i as int] == name@);
            return true;
        }
        i = i + 1;
    }
    false
}

/// The name for a copy of a configuration.
pub fn free_copy_name(configs: &Vec<FrpcConfigMeta>, name: &str) -> (res: String)
    ensures
        res@ == copy_name(config_names(config_views(configs@)), name@),
{
    let ghost existing = config_names(config_views(configs@));
    let plain = name.to_string().concat("-copy");
    if !name_taken(configs, &plain) {
        return plain;
    }
    let mut i: u128 = 2;
    loop
        invariant
            existing == config_names(config_views(configs@)),
            2 <= i <= configs.len() + 2,
            existing.contains(plain_copy(name@)),
            forall|m: nat| 2 <= m < i ==> existing.contains(#[trigger] numbered_copy(name@, m)),
        decreases configs.len() + 2 - i,
    {
        let candidate = name.to_string().concat("-copy-").concat(decimal_text(i).as_str());
        if !name_taken(configs, &candidate) {
            proof {
                assert(is_next_number(existing, name@, i as nat));
                let n = choose|n: nat| is_next_number(existing, name@, n);
                lemma_next_number_unique(existing, name@, i as nat, n);
            }
            return candidate;
        }
        proof {
            lemma_numbers_taken(existing, name@, (i + 1) as nat);
        }
        i = i + 1;
    }
}

fn copied_names(names: &Vec<String>) -> (res: Vec<String>)
    ensures
        name_views(res@) == name_views(names@),
{
    let mut res: Vec<String> = Vec::new();
    let mut i: usize = 0;
    while i < names.len()
        invariant
            i <= names.len(),
            name_views(res@) == name_views(names@).take(i as int),
        decreases names.len() - i,
    {
        let ghost so_far = name_views(res@);
        res.push(names[i].clone());
        assert(name_views(res@) =~= so_far.push(names@[i as int]@));
        assert(name_views(names@).take(i + 1) =~= so_far.push(names@[i as int]@));
        i = i + 1;
    }
    assert(name_views(names@).take(i as int) =~= name_views(names@));
    res
}

impl AppView {
    /// Takes up the stored configurations.
    pub fn reload_configs(&mut self, listing: Listing) -> (actions: Vec<Action>)
        ensures
            final(self)@ == old(self)@.reload(listed(listing)),
            script(actions@) == seq![ActionModel::Notify],
    {
        self.configs = configs_or_none(listing);
        let total: usize = page_count(self.configs.len());
        if self.config_page > 0 && self.config_page >= total {
            self.config_page = if total > 0 {
                total - 1
            } else {
                0
            };
        }
        vec![Action::Notify]
    }

    /// Opens the editor on a new configuration.
    pub fn open_add_config(&mut self) -> (actions: Vec<Action>)
        ensures
            (Step { state: final(self)@, actions: script(actions@) })
                == old(self)@.open_add_config(),
    {
        self.edit_name = String::new();
        self.edit_content = String::new();
        self.edit_auto_start = true;
        self.switch_page(Page::ConfigEditor { original_name: None });
        vec![Action::SetNameInput(String::new()), Action::SetContentInput(String::new())]
    }

    /// Opens the editor on a stored configuration, whose content was read or
    /// could not be.
    pub fn open_edit_config(&mut self, name: &str, content: Result<String, String>) -> (actions:
        Vec<Action>)
        ensures
            (Step { state: final(self)@, actions: script(actions@) })
                == old(self)@.open_edit_config(name@, text_outcome(content)),
    {
        let text = match content {
            Ok(text) => text,
            Err(_) => String::new(),
        };
        self.edit_name = name.to_string();
        self.edit_content = text.clone();
        self.edit_auto_start = match find_config(&self.configs, &self.edit_name) {
            Some(i) => self.configs[i].auto_start,
            None => false,
        };
        self.switch_page(Page::ConfigEditor { original_name: Some(name.to_string()) });
        vec![Action::SetNameInput(name.to_string()), Action::SetContentInput(text)]
    }

    fn store_edited(&self, name: &String) -> (actions: Vec<Action>)
        ensures
            (Step { state: self@, actions: script(actions@) }) == self@.store_edited(name@),
    {
        let mut actions: Vec<Action> = Vec::new();
        match &self.page {
            Page::ConfigEditor { original_name: Some(orig) } => {
                if !(*orig == *name) {
                    actions.push(Action::DeleteReplaced(orig.clone()));
                }
            },
            _ => {},
        }
        actions.push(
            Action::ValidateToml { name: name.clone(), content: self.edit_content.clone() },
        );
        actions
    }

    /// Begins to save what stands in the two fields of the editor.
    pub fn save_config(&mut self, name_text: String, content_text: String) -> (actions: Vec<Action>)
        ensures
            (Step { state: final(self)@, actions: script(actions@) }) == old(self)@.save_config(
                name_text@,
                content_text@,
            ),
    {
        self.edit_name = name_text;
        self.edit_content = content_text;
        let name = trim(self.edit_name.as_str());
        if name.as_str().is_empty() {
            return self.set_status_message("配置名称不能为空".to_string(), MessageLevel::Error);
        }
        if !only_name_chars(name.as_str()) {
            return self.set_status_message(
                "配置名称只能包含字母、数字、下划线和连字符".to_string(),
                MessageLevel::Error,
            );
        }
        if blank(self.edit_content.as_str()) {
            return self.set_status_message("配置内容不能为空".to_string(), MessageLevel::Error);
        }
        match &self.page {
            Page::ConfigEditor { original_name: None } => vec![Action::CheckConfigExists(name)],
            _ => self.store_edited(&name),
        }
    }

    /// Goes on with saving a new configuration, after it was looked whether
    /// one is stored under its name.
    pub fn save_config_checked(&mut self, name: &str, exists: bool) -> (actions: Vec<Action>)
        ensures
            (Step { state: final(self)@, actions: script(actions@) })
                == old(self)@.save_config_checked(name@, exists),
    {
        if exists {
            self.set_status_message(
                "配置 '".to_string().concat(name).concat("' 已存在"),
                MessageLevel::Error,
            )
        } else {
            self.store_edited(&name.to_string())
        }
    }

    /// Goes on with saving, after the content was read as TOML: into the
    /// server address and the proxies, or into an error.
    pub fn save_config_validated(
        &mut self,
        name: &str,
        res: Result<(String, Vec<String>), String>,
    ) -> (actions: Vec<Action>)
        ensures
            (Step { state: final(self)@, actions: script(actions@) })
                == old(self)@.save_config_validated(name@, toml_outcome(res)),
    {
        match res {
            Ok((server_addr, proxies)) => vec![
                Action::SaveConfig(
                    ConfigEntry {
                        name: name.to_string(),
                        content: self.edit_content.clone(),
                        auto_start: self.edit_auto_start,
                        server_addr,
                        proxies,
                    },
                ),
            ],
            Err(e) => self.set_status_message(
                "保存失败：".to_string().concat(e.as_str()),
                MessageLevel::Error,
            ),
        }
    }

    /// Takes up what came of storing a configuration; if it was stored, the
    /// configurations were listed again.
    pub fn config_saved(&mut self, name: &str, res: Result<Listing, String>) -> (actions: Vec<
        Action,
    >)
        ensures
            (Step { state: final(self)@, actions: script(actions@) }) == old(self)@.config_saved(
                name@,
                listing_outcome(res),
            ),
    {
        match res {
            Ok(listing) => {
                let drawn = self.reload_configs(listing);
                let report = self.switch_page_with_message(
                    Page::ConfigList,
                    "配置 '".to_string().concat(name).concat("' 保存成功"),
                    MessageLevel::Success,
                );
                joined(drawn, report)
            },
            Err(e) => self.set_status_message(
                "保存失败：".to_string().concat(e.as_str()),
                MessageLevel::Error,
            ),
        }
    }

    /// Begins to delete a configuration.
    pub fn delete_config(&mut self, name: &str) -> (actions: Vec<Action>)
        ensures
            (Step { state: final(self)@, actions: script(actions@) }) == old(self)@.delete_config(
                name@,
            ),
    {
        let key = name.to_string();
        let mut actions: Vec<Action> = Vec::new();
        match self.running.remove(&key) {
            Some(pid) => {
                actions.push(Action::StopProcess { name: name.to_string(), pid });
            },
            None => {},
        }
        actions.push(Action::DeleteConfig(key));
        actions
    }

    /// Takes up what came of deleting a configuration; if it was deleted, the
    /// configurations were listed again.
    pub fn config_deleted(&mut self, name: &str, res: Result<Listing, String>) -> (actions: Vec<
        Action,
    >)
        ensures
            (Step { state: final(self)@, actions: script(actions@) }) == old(self)@.config_deleted(
                name@,
                listing_outcome(res),
            ),
    {
        match res {
            Ok(listing) => {
                let drawn = self.reload_configs(listing);
                let report = self.set_status_message(
                    "配置 '".to_string().concat(name).concat("' 已删除"),
                    MessageLevel::Success,
                );
                joined(drawn, report)
            },
            Err(e) => self.set_status_message(
                "删除失败：".to_string().concat(e.as_str()),
                MessageLevel::Error,
            ),
        }
    }

    /// Begins to copy a configuration, whose content was read or could not be.
    pub fn duplicate_config(&mut self, name: &str, content: Result<String, String>) -> (actions:
        Vec<Action>)
        ensures
            (Step { state: final(self)@, actions: script(actions@) })
                == old(self)@.duplicate_config(name@, text_outcome(content)),
    {
        match content {
            Ok(content) => {
                let new_name = free_copy_name(&self.configs, name);
                let entry = match find_config(&self.configs, &name.to_string()) {
                    Some(i) => ConfigEntry {
                        name: new_name,
                        content,
                        auto_start: self.configs[i].auto_start,
                        server_addr: self.configs[i].server_addr.clone(),
                        proxies: copied_names(&self.configs[i].proxies),
                    },
                    None => ConfigEntry {
                        name: new_name,
                        content,
                        auto_start: false,
                        server_addr: String::new(),
                        proxies: Vec::new(),
                    },
                };
                proof {
                    assert(name_views(Seq::<String>::empty()) =~= Seq::empty());
                }
                vec![Action::SaveCopy(entry)]
            },
            Err(e) => self.set_status_message(
                "复制失败：".to_string().concat(e.as_str()),
                MessageLevel::Error,
            ),
        }
    }

    /// Takes up what came of storing a copy; if it was stored, the
    /// configurations were listed again.
    pub fn config_copied(&mut self, new_name: &str, res: Result<Listing, String>) -> (actions: Vec<
        Action,
    >)
        ensures
            (Step { state: final(self)@, actions: script(actions@) }) == old(self)@.config_copied(
                new_name@,
                listing_outcome(res),
            ),
    {
        match res {
            Ok(listing) => {
                let drawn = self.reload_configs(listing);
                let report = self.set_status_message(
                    "已复制配置为 '".to_string().concat(new_name).concat("'"),
                    MessageLevel::Success,
                );
                joined(drawn, report)
            },
            Err(e) => self.set_status_message(
                "复制失败：".to_string().concat(e.as_str()),
                MessageLevel::Error,
            ),
        }
    }
}

} // verus!
