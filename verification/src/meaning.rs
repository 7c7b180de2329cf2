//! What the words of the contracts mean: the texts, the lists and the findings
//! that the operations are stated in.
use crate::editing::{
    config_names, copy_name, first_config, is_next_number, lemma_next_number_exists,
    numbered_copy, plain_copy, toml_outcome, total_pages,
};
use crate::guard::GuardCommand;
use crate::monitor::{discovery_due, tick_after, tick_before};
use crate::preferences::{filter_of, log_levels, AppSettings};
use crate::processes::{first_named, spawn_outcome};
use crate::startup::{place, place_of};
use crate::state::AppView;
use crate::table::{
    is_listing, name_views, process_names, process_views, ProcessModel, RunningProcess,
};
use crate::text::{
    all_name_chars, ascii_lower, ascii_lowered, decimal, is_blank, is_config_name, is_name_char,
    is_white_space, lemma_decimal_digits, lemma_trimmed_blank, trimmed,
};
use crate::types::{
    config_views, found_views, listed, listing_outcome, outcome, script, text_option, text_outcome,
    Action, ActionModel, ConfigEntry, ConfigModel, Discovered, DiscoveredModel, FrpcConfigMeta,
    Listing, Page, PageModel,
};
use crate::update::{
    found_names, percent_done, restart_actions, untracked, update_outcome, version,
};
use vstd::prelude::*;

verus! {

// Texts.

/// Whether `s` is white space before `from` and from `to` on, and what stands
/// between begins and ends with something else.
pub open spec fn is_core(s: Seq<char>, from: int, to: int) -> bool {
    &&& 0 <= from <= to <= s.len()
    &&& forall|i: int| 0 <= i < from ==> is_white_space(#[trigger] s[i])
    &&& forall|i: int| to <= i < s.len() ==> is_white_space(#[trigger] s[i])
    &&& from < to ==> !is_white_space(s[from]) && !is_white_space(s[to - 1])
}

/// Trimming takes the white space off the two ends, all of it and nothing else;
/// it leaves nothing just where there is nothing else.
pub proof fn law_trimmed(s: Seq<char>)
    ensures
        exists|from: int, to: int| #[trigger]
            is_core(s, from, to) && trimmed(s) == s.subrange(from, to),
        is_blank(s) <==> trimmed(s).len() == 0,
        is_blank(s) <==> forall|i: int| 0 <= i < s.len() ==> is_white_space(#[trigger] s[i]),
    decreases s.len(),
{
    lemma_trimmed_blank(s);
    if s.len() == 0 {
        assert(is_core(s, 0, 0));
        assert(trimmed(s) =~= s.subrange(0, 0));
    } else if is_white_space(s.first()) {
        let r = s.drop_first();
        law_trimmed(r);
        let (from, to) = choose|from: int, to: int| #[trigger]
            is_core(r, from, to) && trimmed(r) == r.subrange(from, to);
        assert forall|i: int| 0 <= i < from + 1 implies is_white_space(#[trigger] s[i]) by {
            if i > 0 {
                assert(r[i - 1] == s[i]);
            }
        }
        assert forall|i: int| to + 1 <= i < s.len() implies is_white_space(#[trigger] s[i]) by {
            assert(r[i - 1] == s[i]);
        }
        assert(is_core(s, from + 1, to + 1));
        assert(r.subrange(from, to) =~= s.subrange(from + 1, to + 1));
    } else if is_white_space(s.last()) {
        let r = s.drop_last();
        law_trimmed(r);
        let (from, to) = choose|from: int, to: int| #[trigger]
            is_core(r, from, to) && trimmed(r) == r.subrange(from, to);
        assert forall|i: int| 0 <= i < from implies is_white_space(#[trigger] s[i]) by {
            assert(r[i] == s[i]);
        }
        assert forall|i: int| to <= i < s.len() implies is_white_space(#[trigger] s[i]) by {
            if i < r.len() {
                assert(r[i] == s[i]);
            }
        }
        assert(is_core(s, from, to));
        assert(r.subrange(from, to) =~= s.subrange(from, to));
    } else {
        assert(is_core(s, 0, s.len() as int));
        assert(s.subrange(0, s.len() as int) =~= s);
    }
}

/// A configuration name is not empty, and made of ASCII letters and digits,
/// underscores and hyphens.
pub proof fn law_name_characters(s: Seq<char>)
    ensures
        all_name_chars(s) <==> forall|i: int|
            0 <= i < s.len() ==> {
                let c = (#[trigger] s[i]) as int;
                0x30 <= c <= 0x39 || 0x41 <= c <= 0x5a || 0x61 <= c <= 0x7a || c == 0x5f || c
                    == 0x2d
            },
        is_config_name(s) <==> s.len() > 0 && all_name_chars(s),
{
    let allowed = |c: int|
        0x30 <= c <= 0x39 || 0x41 <= c <= 0x5a || 0x61 <= c <= 0x7a || c == 0x5f || c == 0x2d;
    assert forall|i: int| 0 <= i < s.len() implies is_name_char(#[trigger] s[i]) == allowed(
        s[i] as int,
    ) by {}
}

/// The number that digits stand for.
pub open spec fn decimal_value(s: Seq<char>) -> int
    decreases s.len(),
{
    if s.len() == 0 {
        0
    } else {
        10 * decimal_value(s.drop_last()) + (s.last() as int - 48)
    }
}

/// A number in decimal is made of digits that stand for it, without a zero in
/// front but for zero itself.
pub proof fn law_decimal(n: nat)
    ensures
        decimal_value(decimal(n)) == n,
        decimal(n).len() > 0,
        forall|i: int| 0 <= i < decimal(n).len() ==> '0' <= #[trigger] decimal(n)[i] <= '9',
        decimal(n)[0] == '0' ==> n == 0,
        n < 10 ==> decimal(n).len() == 1,
    decreases n,
{
    lemma_decimal_digits(n);
    if n >= 10 {
        law_decimal(n / 10);
        assert(decimal(n).drop_last() =~= decimal(n / 10));
        assert(decimal(n).last() as int == 48 + n % 10);
        assert(decimal(n)[0] == decimal(n / 10)[0]);
    } else {
        assert(decimal(n).drop_last() =~= Seq::empty());
        assert(decimal_value(decimal(n).drop_last()) == 0);
        assert(decimal(n).last() as int == 48 + n);
    }
}

/// Lowering an ASCII text replaces its capital letters by the small ones, each
/// in its place, and nothing else.
pub proof fn law_ascii_lowered(s: Seq<char>)
    ensures
        ascii_lowered(s).len() == s.len(),
        forall|i: int|
            0 <= i < s.len() ==> (#[trigger] ascii_lowered(s)[i]) as u32 == (if 0x41 <= s[i] as u32
                <= 0x5a {
                s[i] as u32 + 0x20
            } else {
                s[i] as int
            }),
{
    assert forall|i: int| 0 <= i < s.len() implies (#[trigger] ascii_lowered(s)[i]) as u32 == (
    if 0x41 <= s[i] as u32 <= 0x5a {
        s[i] as u32 + 0x20
    } else {
        s[i] as int
    }) by {
        assert(ascii_lowered(s)[i] == ascii_lower(s[i]));
    }
}

/// The commands to the guard are spelled so.
pub proof fn law_guard_texts(name: Seq<char>, pid: u32)
    ensures
        GuardCommand::Start(name).text() == "START:"@ + name,
        GuardCommand::Stop(name).text() == "STOP:"@ + name,
        GuardCommand::Track(name, pid).text() == "TRACK:"@ + name + ":"@ + decimal(pid as nat),
        GuardCommand::Clear.text() == "CLEAR"@,
{
}

/// The version is what frpc wrote, without the white space around it: on its
/// output, or else on its error output; with nothing on either it is unknown.
pub proof fn law_version(stdout: Seq<char>, stderr: Seq<char>)
    ensures
        trimmed(stdout).len() > 0 ==> version(stdout, stderr) == trimmed(stdout),
        trimmed(stdout).len() == 0 && trimmed(stderr).len() > 0 ==> version(stdout, stderr)
            == trimmed(stderr),
        trimmed(stdout).len() == 0 && trimmed(stderr).len() == 0 ==> version(stdout, stderr)
            == "未知版本"@,
{
    lemma_trimmed_blank(stdout);
    lemma_trimmed_blank(stderr);
}

/// The share of a download is the whole number of percent that is done, and 100
/// from the end on.
pub proof fn law_percent_exact(done: int, total: int)
    requires
        0 <= done,
    ensures
        0 <= done < total ==> {
            let p = percent_done(done, total);
            0 <= p && p * total <= done * 100 < (p + 1) * total
        },
        0 < total <= done ==> percent_done(done, total) == 100,
        total <= 0 ==> percent_done(done, total) == 0,
{
    if 0 <= done < total {
        let p = percent_done(done, total);
        assert(0 <= done * 100 / total < 100) by (nonlinear_arith)
            requires
                0 <= done < total,
        ;
        assert(p == done * 100 / total);
        assert(p * total <= done * 100 < (p + 1) * total) by (nonlinear_arith)
            requires
                p == done * 100 / total,
                0 < total,
        ;
    } else if 0 < total <= done {
        assert(done * 100 / total >= 100) by (nonlinear_arith)
            requires
                0 < total <= done,
        ;
    }
}

/// The levels on offer are these, each with the filter of its name; any other
/// level filters as `info` does.
pub proof fn law_levels(level: Seq<char>)
    ensures
        log_levels() == seq!["off"@, "error"@, "warn"@, "info"@, "debug"@, "trace"@],
        filter_of("off"@) is Off,
        filter_of("error"@) is Error,
        filter_of("warn"@) is Warn,
        filter_of("info"@) is Info,
        filter_of("debug"@) is Debug,
        filter_of("trace"@) is Trace,
        filter_of(level) is Off ==> level == "off"@,
        filter_of(level) is Error ==> level == "error"@,
        filter_of(level) is Warn ==> level == "warn"@,
        filter_of(level) is Debug ==> level == "debug"@,
        filter_of(level) is Trace ==> level == "trace"@,
{
    reveal_strlit("off");
    reveal_strlit("error");
    reveal_strlit("warn");
    reveal_strlit("info");
    reveal_strlit("debug");
    reveal_strlit("trace");
    assert("error"@[0] == 'e' && "debug"@[0] == 'd' && "trace"@[0] == 't' && "warn"@[0] == 'w'
        && "info"@[0] == 'i');
}

// Searches in lists.

/// The first process of a name is the one before which no other has the name;
/// where none is found, none has it.
pub proof fn law_first_named(found: Seq<DiscoveredModel>, name: Seq<char>)
    ensures
        match first_named(found, name) {
            Some(d) => exists|i: int|
                0 <= i < found.len() && #[trigger] found[i] == d && d.name == name && forall|j: int|
                    0 <= j < i ==> (#[trigger] found[j]).name != name,
            None => forall|i: int| 0 <= i < found.len() ==> (#[trigger] found[i]).name != name,
        },
    decreases found.len(),
{
    if found.len() > 0 {
        if found.first().name == name {
            assert(found[0] == found.first());
        } else {
            let rest = found.drop_first();
            law_first_named(rest, name);
            match first_named(rest, name) {
                Some(d) => {
                    let i = choose|i: int|
                        0 <= i < rest.len() && #[trigger] rest[i] == d && d.name == name && forall|
                            j: int,
                        | 0 <= j < i ==> (#[trigger] rest[j]).name != name;
                    assert(found[i + 1] == d);
                    assert forall|j: int| 0 <= j < i + 1 implies (#[trigger] found[j]).name
                        != name by {
                        if j > 0 {
                            assert(rest[j - 1] == found[j]);
                        }
                    }
                },
                None => {
                    assert forall|i: int| 0 <= i < found.len() implies (#[trigger] found[i]).name
                        != name by {
                        if i > 0 {
                            assert(rest[i - 1] == found[i]);
                        }
                    }
                },
            }
        }
    }
}

/// The first configuration of a name is the one before which no other has the
/// name; where none is found, none has it.
pub proof fn law_first_config(configs: Seq<ConfigModel>, name: Seq<char>)
    ensures
        match first_config(configs, name) {
            Some(c) => exists|i: int|
                0 <= i < configs.len() && #[trigger] configs[i] == c && c.name == name && forall|
                    j: int,
                | 0 <= j < i ==> (#[trigger] configs[j]).name != name,
            None => forall|i: int| 0 <= i < configs.len() ==> (#[trigger] configs[i]).name != name,
        },
    decreases configs.len(),
{
    if configs.len() > 0 {
        if configs.first().name == name {
            assert(configs[0] == configs.first());
        } else {
            let rest = configs.drop_first();
            law_first_config(rest, name);
            match first_config(rest, name) {
                Some(c) => {
                    let i = choose|i: int|
                        0 <= i < rest.len() && #[trigger] rest[i] == c && c.name == name && forall|
                            j: int,
                        | 0 <= j < i ==> (#[trigger] rest[j]).name != name;
                    assert(configs[i + 1] == c);
                    assert forall|j: int| 0 <= j < i + 1 implies (#[trigger] configs[j]).name
                        != name by {
                        if j > 0 {
                            assert(rest[j - 1] == configs[j]);
                        }
                    }
                },
                None => {
                    assert forall|i: int|
                        0 <= i < configs.len() implies (#[trigger] configs[i]).name != name by {
                        if i > 0 {
                            assert(rest[i - 1] == configs[i]);
                        }
                    }
                },
            }
        }
    }
}

/// The place of a name is that of its first occurrence; a name without a place
/// does not occur.
pub proof fn law_place(names: Seq<Seq<char>>, name: Seq<char>, at: Option<usize>)
    ensures
        match place_of(names, name) {
            Some(i) => i < names.len() && names[i as int] == name && forall|j: int|
                0 <= j < i ==> #[trigger] names[j] != name,
            None => !names.contains(name),
        },
        match at {
            Some(i) => place(at) == Some(i as nat),
            None => place(at) is None,
        },
    decreases names.len(),
{
    if names.len() > 0 && names.first() != name {
        let rest = names.drop_first();
        law_place(rest, name, at);
        assert forall|j: int| 0 < j < names.len() implies #[trigger] names[j] == rest[j - 1] by {}
        if place_of(rest, name) is None && names.contains(name) {
            let k = choose|k: int| 0 <= k < names.len() && names[k] == name;
            assert(rest[k - 1] == name);
        }
    }
}

/// The name for a copy is the name with `-copy` where that is free. Else it is
/// the name with `-copy-` and the least number from 2 on for which that is free.
pub proof fn law_copy_name_least(existing: Seq<Seq<char>>, name: Seq<char>)
    ensures
        ({
            let plain = name + "-copy"@;
            &&& !existing.contains(plain) ==> copy_name(existing, name) == plain
            &&& existing.contains(plain) ==> exists|n: nat|
                {
                    &&& n >= 2
                    &&& copy_name(existing, name) == #[trigger] numbered_copy(name, n)
                    &&& !existing.contains(numbered_copy(name, n))
                    &&& forall|m: nat|
                        2 <= m < n ==> existing.contains(#[trigger] numbered_copy(name, m))
                }
        }),
        forall|n: nat| #[trigger] numbered_copy(name, n) == name + "-copy-"@ + decimal(n),
{
    assert(plain_copy(name) == name + "-copy"@);
    if existing.contains(plain_copy(name)) {
        lemma_next_number_exists(existing, name);
        let n = choose|n: nat| is_next_number(existing, name, n);
        assert(is_next_number(existing, name, n));
        assert(copy_name(existing, name) == numbered_copy(name, n));
    }
}

/// Eight configurations make a page, and a page is begun for what is left over.
pub proof fn law_page_count(n: nat)
    ensures
        8 * (total_pages(n) - 1) < n <= 8 * total_pages(n) || n == 0 && total_pages(n) == 0,
{
}

// Lists of processes.

/// A listing has each process of the table once, and no other.
pub proof fn law_listing(procs: Seq<ProcessModel>, m: Map<Seq<char>, u32>)
    requires
        is_listing(procs, m),
    ensures
        forall|i: int|
            0 <= i < procs.len() ==> m.contains_key((#[trigger] procs[i]).name)
                && m[procs[i].name] == procs[i].pid,
        forall|i: int, j: int|
            0 <= i < j < procs.len() ==> (#[trigger] procs[i]).name != (#[trigger] procs[j]).name,
        forall|name: Seq<char>| #[trigger]
            m.contains_key(name) ==> exists|i: int|
                0 <= i < procs.len() && (#[trigger] procs[i]).name == name,
{
    let names = process_names(procs);
    assert forall|i: int| 0 <= i < procs.len() implies m.contains_key((#[trigger] procs[i]).name)
        && m[procs[i].name] == procs[i].pid by {
        assert(names[i] == procs[i].name);
        assert(names.to_set().contains(names[i]));
    }
    assert forall|i: int, j: int| 0 <= i < j < procs.len() implies (#[trigger] procs[i]).name != (
    #[trigger] procs[j]).name by {
        assert(names[i] != names[j]);
    }
    assert forall|name: Seq<char>| #[trigger] m.contains_key(name) implies exists|i: int|
        0 <= i < procs.len() && (#[trigger] procs[i]).name == name by {
        assert(names.to_set().contains(name));
        let i = choose|i: int| 0 <= i < names.len() && names[i] == name;
        assert(procs[i].name == name);
    }
}

/// The processes that are not tracked are some of those found, each the first of
/// its name.
pub proof fn law_untracked(names: Seq<Seq<char>>, found: Seq<DiscoveredModel>, k: int)
    requires
        0 <= k < untracked(names, found).len(),
    ensures
        exists|i: int|
            {
                &&& 0 <= i < found.len()
                &&& #[trigger] found[i] == untracked(names, found)[k]
                &&& !names.contains(found[i].name)
                &&& forall|j: int| 0 <= j < i ==> (#[trigger] found[j]).name != found[i].name
            },
    decreases found.len(),
{
    let rest = found.drop_last();
    let earlier = untracked(names, rest);
    if k < earlier.len() {
        law_untracked(names, rest, k);
        let i = choose|i: int|
            {
                &&& 0 <= i < rest.len()
                &&& #[trigger] rest[i] == untracked(names, rest)[k]
                &&& !names.contains(rest[i].name)
                &&& forall|j: int| 0 <= j < i ==> (#[trigger] rest[j]).name != rest[i].name
            };
        assert(found[i] == rest[i]);
        assert forall|j: int| 0 <= j < i implies (#[trigger] found[j]).name != found[i].name by {
            assert(rest[j] == found[j]);
        }
        assert(found[i] == untracked(names, found)[k]);
    } else {
        let last = found.len() - 1;
        assert forall|j: int| 0 <= j < last implies (#[trigger] found[j]).name
            != found[last].name by {
            if found[j].name == found[last].name {
                assert(rest[j] == found[j]);
                lemma_untracked_covers(names, rest, j);
            }
        }
        assert(found[last] == untracked(names, found)[k]);
    }
}

proof fn lemma_untracked_covers(names: Seq<Seq<char>>, found: Seq<DiscoveredModel>, i: int)
    requires
        0 <= i < found.len(),
        !names.contains(found[i].name),
    ensures
        found_names(untracked(names, found)).contains(found[i].name),
    decreases found.len(),
{
    let rest = found.drop_last();
    let earlier = found_names(untracked(names, rest));
    let now = found_names(untracked(names, found));
    let name = found[i].name;
    if i < rest.len() {
        assert(rest[i] == found[i]);
        lemma_untracked_covers(names, rest, i);
    }
    if earlier.contains(name) {
        let k = choose|k: int| 0 <= k < earlier.len() && earlier[k] == name;
        assert(now[k] == name);
    } else {
        assert(now[earlier.len() as int] == name);
    }
}

// The count of the checks.

/// A search is due with the service registered, after a signal or at a count of
/// two and more. It sets the count to zero; else the count goes up with the
/// service registered, and a signal sets it to three without it.
pub proof fn law_tick(tick: nat, signaled: bool)
    ensures
        discovery_due(tick, signaled, true) <==> signaled || tick >= 2,
        !discovery_due(tick, signaled, false),
        signaled || tick >= 2 ==> tick_after(tick, signaled, true) == 0,
        !signaled && tick < 2 ==> tick_after(tick, signaled, true) == tick + 1,
        tick_after(tick, true, false) == 3,
        tick_after(tick, false, false) == tick,
        tick_before(tick, true) == 3,
        tick_before(tick, false) == tick,
{
}

// Values and what they stand for.

/// Lists stand for what their elements stand for, one for one and in order.
pub proof fn law_lists(
    names: Seq<String>,
    configs: Seq<FrpcConfigMeta>,
    found: Seq<Discovered>,
    procs: Seq<RunningProcess>,
    actions: Seq<Action>,
    i: int,
)
    ensures
        name_views(names).len() == names.len(),
        0 <= i < names.len() ==> name_views(names)[i] == names[i]@,
        config_views(configs).len() == configs.len(),
        0 <= i < configs.len() ==> config_views(configs)[i] == configs[i]@,
        found_views(found).len() == found.len(),
        0 <= i < found.len() ==> found_views(found)[i] == found[i]@,
        process_views(procs).len() == procs.len(),
        0 <= i < procs.len() ==> process_views(procs)[i] == procs[i]@,
        script(actions).len() == actions.len(),
        0 <= i < actions.len() ==> script(actions)[i] == actions[i]@,
{
}

/// The names of a list are the names of its elements, one for one and in order;
/// so are the restarts of names.
pub proof fn law_names(
    configs: Seq<ConfigModel>,
    found: Seq<DiscoveredModel>,
    procs: Seq<ProcessModel>,
    names: Seq<Seq<char>>,
    i: int,
)
    ensures
        config_names(configs).len() == configs.len(),
        0 <= i < configs.len() ==> config_names(configs)[i] == configs[i].name,
        found_names(found).len() == found.len(),
        0 <= i < found.len() ==> found_names(found)[i] == found[i].name,
        process_names(procs).len() == procs.len(),
        0 <= i < procs.len() ==> process_names(procs)[i] == procs[i].name,
        restart_actions(names).len() == names.len(),
        0 <= i < names.len() ==> restart_actions(names)[i] == ActionModel::Restart(names[i]),
{
}

/// A success stands for its value and a failure for its message; a list that
/// could not be had stands for no configuration.
pub proof fn law_outcomes(
    done: Result<(), String>,
    text: Result<String, String>,
    listing: Listing,
    stored: Result<Listing, String>,
    spawned: Result<u32, String>,
    toml: Result<(String, Vec<String>), String>,
    newer: Result<Option<String>, String>,
    option: Option<String>,
)
    ensures
        match done {
            Ok(_) => outcome(done) is Ok,
            Err(e) => outcome(done) == Err::<(), Seq<char>>(e@),
        },
        match text {
            Ok(s) => text_outcome(text) == Ok::<Seq<char>, Seq<char>>(s@),
            Err(e) => text_outcome(text) == Err::<Seq<char>, Seq<char>>(e@),
        },
        match listing {
            Ok(configs) => listed(listing) == config_views(configs@),
            Err(_) => listed(listing).len() == 0,
        },
        match stored {
            Ok(l) => listing_outcome(stored) == Ok::<Seq<ConfigModel>, Seq<char>>(listed(l)),
            Err(e) => listing_outcome(stored) == Err::<Seq<ConfigModel>, Seq<char>>(e@),
        },
        match spawned {
            Ok(pid) => spawn_outcome(spawned) == Ok::<u32, Seq<char>>(pid),
            Err(e) => spawn_outcome(spawned) == Err::<u32, Seq<char>>(e@),
        },
        match toml {
            Ok((addr, proxies)) => toml_outcome(toml) == Ok::<
                (Seq<char>, Seq<Seq<char>>),
                Seq<char>,
            >((addr@, name_views(proxies@))),
            Err(e) => toml_outcome(toml) == Err::<(Seq<char>, Seq<Seq<char>>), Seq<char>>(e@),
        },
        match newer {
            Ok(Some(tag)) => update_outcome(newer) == Ok::<Option<Seq<char>>, Seq<char>>(
                Some(tag@),
            ),
            Ok(None) => update_outcome(newer) == Ok::<Option<Seq<char>>, Seq<char>>(None),
            Err(e) => update_outcome(newer) == Err::<Option<Seq<char>>, Seq<char>>(e@),
        },
        match option {
            Some(s) => text_option(option) == Some(s@),
            None => text_option(option) is None,
        },
{
}

/// The state stands for all that its fields hold.
pub proof fn law_state_view(v: AppView)
    ensures
        v@.page == v.page@,
        v@.service_registered == v.service_registered,
        v@.configs == config_views(v.configs@),
        v@.running == v.running@,
        v@.stopped_configs == v.stopped_configs@,
        v@.edit_name == v.edit_name@,
        v@.edit_content == v.edit_content@,
        v@.edit_auto_start == v.edit_auto_start,
        v@.frpc_version == text_option(v.frpc_version),
        v@.is_checking_update == v.is_checking_update,
        v@.is_downloading == v.is_downloading,
        v@.download_percent == v.download_percent,
        v@.is_processing == v.is_processing,
        v@.status_message == text_option(v.status_message),
        v@.status_level == v.status_level,
        v@.config_page == v.config_page,
        v@.process_guard == v.process_guard,
{
}

/// The data stand for all that their fields hold.
pub proof fn law_data_views(
    page: Page,
    config: FrpcConfigMeta,
    entry: ConfigEntry,
    found: Discovered,
    proc: RunningProcess,
    settings: AppSettings,
)
    ensures
        match page {
            Page::ConfigList => page@ == PageModel::ConfigList,
            Page::ConfigEditor { original_name } => page@ == (PageModel::ConfigEditor {
                original_name: text_option(original_name),
            }),
            Page::Settings => page@ == PageModel::Settings,
        },
        config@.name == config.name@,
        config@.auto_start == config.auto_start,
        config@.server_addr == config.server_addr@,
        config@.proxies == name_views(config.proxies@),
        entry@.name == entry.name@,
        entry@.content == entry.content@,
        entry@.auto_start == entry.auto_start,
        entry@.server_addr == entry.server_addr@,
        entry@.proxies == name_views(entry.proxies@),
        found@.name == found.name@,
        found@.pid == found.pid,
        found@.alive == found.alive,
        proc@.name == proc.name@,
        proc@.pid == proc.pid,
        settings@.process_guard == settings.process_guard,
        settings@.log_level == settings.log_level@,
{
}

/// An action stands for the action of the same name, with all that it carries.
pub proof fn law_action_view(a: Action)
    ensures
        match a {
            Action::Notify => a@ == ActionModel::Notify,
            Action::ClearStatusLater => a@ == ActionModel::ClearStatusLater,
            Action::SendGuardCommand(text) => a@ == ActionModel::SendGuardCommand(text@),
            Action::SaveGuardSetting(on) => a@ == ActionModel::SaveGuardSetting(on),
            Action::DropGuardSetting => a@ == ActionModel::DropGuardSetting,
            Action::StartService => a@ == ActionModel::StartService,
            Action::SignalGuardChanged => a@ == ActionModel::SignalGuardChanged,
            Action::ApplyTheme(name) => a@ == ActionModel::ApplyTheme(name@),
            Action::SaveThemePreference(name) => a@ == ActionModel::SaveThemePreference(name@),
            Action::SetLogLevel { filter, level } => a@ == (ActionModel::SetLogLevel { filter: filter, level: level@, }),
            Action::SaveLogLevel(level) => a@ == ActionModel::SaveLogLevel(level@),
            Action::SetNameInput(text) => a@ == ActionModel::SetNameInput(text@),
            Action::SetContentInput(text) => a@ == ActionModel::SetContentInput(text@),
            Action::CheckConfigExists(name) => a@ == ActionModel::CheckConfigExists(name@),
            Action::DeleteReplaced(name) => a@ == ActionModel::DeleteReplaced(name@),
            Action::ValidateToml { name, content } => a@ == (ActionModel::ValidateToml { name: name@, content: content@, }),
            Action::SaveConfig(entry) => a@ == ActionModel::SaveConfig(entry@),
            Action::SaveCopy(entry) => a@ == ActionModel::SaveCopy(entry@),
            Action::DeleteConfig(name) => a@ == ActionModel::DeleteConfig(name@),
            Action::FindProcess(name) => a@ == ActionModel::FindProcess(name@),
            Action::CheckExecutable(name) => a@ == ActionModel::CheckExecutable(name@),
            Action::SpawnProcess(name) => a@ == ActionModel::SpawnProcess(name@),
            Action::WatchConnection(name) => a@ == ActionModel::WatchConnection(name@),
            Action::CheckExitSoon(name) => a@ == ActionModel::CheckExitSoon(name@),
            Action::StopProcess { name, pid } => a@ == (ActionModel::StopProcess { name: name@, pid: pid, }),
            Action::StopInBackground { name, pid } => a@ == (ActionModel::StopInBackground { name: name@, pid: pid, }),
            Action::StopForRestart { name, pid } => a@ == (ActionModel::StopForRestart { name: name@, pid: pid, }),
            Action::KillProcess { name, pid } => a@ == (ActionModel::KillProcess { name: name@, pid: pid, }),
            Action::CheckUpdate => a@ == ActionModel::CheckUpdate,
            Action::FindProcessesForUpdate => a@ == ActionModel::FindProcessesForUpdate,
            Action::ConfirmUpdate => a@ == ActionModel::ConfirmUpdate,
            Action::FindProcessesForDownload(names) => a@ == ActionModel::FindProcessesForDownload( name_views(names@), ),
            Action::StartDownload(names) => a@ == ActionModel::StartDownload(name_views(names@)),
            Action::DetectVersion => a@ == ActionModel::DetectVersion,
            Action::RunVersionCommand => a@ == ActionModel::RunVersionCommand,
            Action::Restart(name) => a@ == ActionModel::Restart(name@),
            Action::InstallService => a@ == ActionModel::InstallService,
            Action::UninstallService => a@ == ActionModel::UninstallService,
            Action::FindProcessesAfterUninstall => a@ == ActionModel::FindProcessesAfterUninstall,
            Action::FindProcesses => a@ == ActionModel::FindProcesses,
            Action::WaitProcessChanged => a@ == ActionModel::WaitProcessChanged,
        },
{
}

} // verus!
