//! What becomes of the files that come with a message: which are taken, under which names
//! they are kept and where, and what is said of them.
use crate::command_laws::{place_of, settled};
use crate::config::ConfigView;
use crate::json::JsonView;
use crate::message_laws::lemma_not_legacy;
use crate::number::decimal;
use crate::paths::{joined_path, FilePathView};
use crate::slack_files::{
    advanced, agent_workspace, agent_workspaces, attachment_context, attachment_job,
    attachments_of, candidate_texts, current_path, event_attachments, file_keys, file_name, noted,
    path_component, relative_candidates, upload_candidates, AttachmentView, CandidateView,
    JobView, SeenFrom,
};
use crate::slack_laws::{is_there, lemma_is_there};
use crate::text::{
    distinct, first_places, has_prefix, is_space, joined, law_distinct, law_first_places,
    trimmed, CharSet,
};
use crate::text_laws::{bare, law_bare_stays, law_new_places, new_places};
use vstd::prelude::*;

verus! {

// Files.
/// Where a file can be had: where it can be downloaded, or else where it can be seen,
/// without white space around it.
pub open spec fn url_of(item: JsonView) -> Seq<char> {
    if item.text_at("url_private_download"@) is Some {
        trimmed(item.text_at("url_private_download"@)->0)
    } else if item.text_at("url_private"@) is Some {
        trimmed(item.text_at("url_private"@)->0)
    } else {
        seq![]
    }
}

/// What tells a file from others.
pub open spec fn key_of(item: JsonView) -> Seq<char> {
    if item.text_at("id"@) is Some {
        item.text_at("id"@)->0
    } else {
        url_of(item)
    }
}

/// Whether a file with a key, that can be had, is among some files.
pub open spec fn among(files: Seq<JsonView>, key: Seq<char>) -> bool {
    exists|j: int|
        0 <= j < files.len() && url_of(#[trigger] files[j]).len() > 0 && key_of(files[j]) == key
}

proof fn lemma_among(files: Seq<JsonView>, key: Seq<char>)
    ensures
        file_keys(files).contains(key) <==> among(files, key),
    decreases files.len(),
{
    if files.len() > 0 {
        let rest = files.drop_last();
        let last = files.last();
        lemma_among(rest, key);
        let before = file_keys(rest);
        let all = file_keys(files);
        assert(trimmed(Seq::<char>::empty()) =~= seq![]);
        assert(crate::slack_files::file_url(last) == url_of(last));
        assert(crate::slack_files::file_key(last) == key_of(last));
        if among(rest, key) {
            let j = choose|j: int|
                0 <= j < rest.len() && url_of(#[trigger] rest[j]).len() > 0 && key_of(rest[j])
                    == key;
            assert(files[j] == rest[j]);
            let i = choose|i: int| 0 <= i < before.len() && before[i] == key;
            assert(all[i] == key);
        }
        if among(files, key) {
            let j = choose|j: int|
                0 <= j < files.len() && url_of(#[trigger] files[j]).len() > 0 && key_of(files[j])
                    == key;
            if j < rest.len() {
                assert(rest[j] == files[j]);
            } else {
                assert(all[before.len() as int] == key);
            }
        }
        if all.contains(key) {
            let i = choose|i: int| 0 <= i < all.len() && all[i] == key;
            if i < before.len() {
                assert(before[i] == key);
            } else {
                assert(files[files.len() - 1] == last);
            }
        }
    }
}

/// The files that are taken of an event are those that can be had, in their order, each
/// once, under the names they have.
pub proof fn law_files_are_taken(files: Seq<JsonView>, item: JsonView)
    ensures
        attachments_of(seq![]).len() == 0,
        url_of(item).len() == 0 || among(files, key_of(item)) ==> attachments_of(files.push(item))
            == attachments_of(files),
        url_of(item).len() > 0 && !among(files, key_of(item)) ==> attachments_of(
            files.push(item),
        ) == attachments_of(files).push(
            AttachmentView {
                name: if is_there(item.text_at("name"@)) {
                    trimmed(item.text_at("name"@)->0)
                } else {
                    "attachment.bin"@
                },
                download_url: url_of(item),
                size_bytes: item.unsigned_at("size"@),
            },
        ),
{
    assert(files.push(item).drop_last() =~= files);
    assert(files.push(item).last() == item);
    lemma_among(files, key_of(item));
    lemma_is_there(item.text_at("name"@));
    assert(trimmed(Seq::<char>::empty()) =~= seq![]);
    assert(crate::slack_files::file_url(item) == url_of(item));
    assert(crate::slack_files::file_key(item) == key_of(item));
}

/// The first five files of an event are dealt with, where there is a token to fetch them
/// with. There is nothing to do without a token, or without a file.
pub proof fn law_files_are_dealt_with(
    bot_token: Option<Seq<char>>,
    event: JsonView,
    session: Seq<char>,
)
    ensures
        event.list_at("files"@) is None ==> event_attachments(event).len() == 0,
        event.list_at("files"@) matches Some(files) ==> event_attachments(event)
            == attachments_of(files),
        !is_there(bot_token) || event_attachments(event).len() == 0 ==> attachment_job(
            bot_token,
            event,
            session,
        ) is None,
        is_there(bot_token) && event_attachments(event).len() > 0 ==> attachment_job(
            bot_token,
            event,
            session,
        ) == Some(
            JobView {
                session,
                attachments: if event_attachments(event).len() > 5 {
                    event_attachments(event).take(5)
                } else {
                    event_attachments(event)
                },
                index: 0,
                lines: seq!["Attached files saved to agent workspaces:"@],
                saved: 0,
            },
        ),
{
    lemma_is_there(bot_token);
}

/// What is noted of a file is said of that file, after what was said before; the next one
/// follows.
pub proof fn law_files_are_noted(job: JobView, line: Seq<char>, saved: bool)
    ensures
        noted(job, line, saved).lines == job.lines.push(
            "- "@ + job.attachments[job.index as int].name + line,
        ),
        noted(job, line, saved).index == job.index + 1,
        noted(job, line, true).saved == job.saved + 1,
        noted(job, line, false).saved == job.saved,
        noted(job, line, saved).attachments == job.attachments,
        noted(job, line, saved).session == job.session,
{
}

/// A file that is known to be larger than twenty mebibytes is passed over, with a word on
/// why; any other is the next.
pub proof fn law_large_files_are_passed_over(job: JobView)
    requires
        job.index < job.attachments.len(),
    ensures
        (job.attachments[job.index as int].size_bytes matches Some(size) && size > 20_971_520)
            ==> advanced(job) == advanced(
            noted(job, " (skipped: file is larger than 20971520 bytes)"@, false),
        ),
        (job.attachments[job.index as int].size_bytes matches Some(size) ==> size <= 20_971_520)
            ==> advanced(job) == job,
{
    lemma_limit();
    reveal_strlit(" (skipped: file is larger than 20971520 bytes)");
    reveal_strlit(" (skipped: file is larger than ");
    reveal_strlit(" bytes)");
    reveal_strlit("20971520");
    assert(" (skipped: file is larger than "@ + "20971520"@ + " bytes)"@
        =~= " (skipped: file is larger than 20971520 bytes)"@);
}

proof fn lemma_limit()
    ensures
        decimal(20_971_520) == "20971520"@,
{
    reveal_strlit("20971520");
    reveal_with_fuel(decimal, 9);
    assert(decimal(2) =~= seq!['2']);
    assert(decimal(20) =~= seq!['2', '0']);
    assert(decimal(209) =~= seq!['2', '0', '9']);
    assert(decimal(2097) =~= seq!['2', '0', '9', '7']);
    assert(decimal(20971) =~= seq!['2', '0', '9', '7', '1']);
    assert(decimal(209715) =~= seq!['2', '0', '9', '7', '1', '5']);
    assert(decimal(2097152) =~= seq!['2', '0', '9', '7', '1', '5', '2']);
    assert(decimal(20971520) =~= seq!['2', '0', '9', '7', '1', '5', '2', '0']);
    assert("20971520"@ =~= seq!['2', '0', '9', '7', '1', '5', '2', '0']);
}

/// What was said of the files is told in the end, one on a line, where one was saved;
/// nothing is told where none was.
pub proof fn law_saved_files_are_told(job: JobView)
    ensures
        job.saved == 0 ==> attachment_context(job) is None,
        job.saved > 0 && job.lines.len() > 0 ==> attachment_context(job) == Some(
            joined(job.lines, "\n"@) + "\n"@ + "Use the saved local paths when running scripts."@,
        ),
{
    let last = "Use the saved local paths when running scripts."@;
    assert(job.lines.push(last).drop_last() =~= job.lines);
}

// Names.
/// Whether a character is kept in the name of a file.
pub open spec fn kept(c: char) -> bool {
    'a' <= c <= 'z' || 'A' <= c <= 'Z' || '0' <= c <= '9' || c == '.' || c == '-' || c == '_'
}

/// Whether a character neither is taken away at the ends of a name nor replaced.
pub open spec fn firm(c: char) -> bool {
    kept(c) && c != '.' && c != '-'
}

/// A name that starts and ends firmly is kept, with a hyphen for each character that may
/// not stand in it.
pub proof fn law_names_are_kept(name: Seq<char>, fallback: Seq<char>)
    requires
        name.len() > 0,
        firm(name[0]),
        firm(name.last()),
    ensures
        ({
            let safe = Seq::new(
                name.len(),
                |i: int|
                    if kept(name[i]) {
                        name[i]
                    } else {
                        '-'
                    },
            );
            &&& path_component(name, fallback) == safe
            &&& name.len() <= 96 ==> file_name(name) == safe
            &&& name.len() > 96 ==> file_name(name) == safe.take(96)
        }),
{
    let safe = Seq::new(
        name.len(),
        |i: int|
            if kept(name[i]) {
                name[i]
            } else {
                '-'
            },
    );
    reveal_strlit(".");
    reveal_strlit("-");
    reveal_strlit("..");
    assert("."@ =~= seq!['.']);
    assert("-"@ =~= seq!['-']);
    let mapped = Seq::new(name.len(), |i: int| crate::slack_files::file_char(name[i]));
    assert(mapped =~= safe);
    assert(safe[0] == name[0] && safe.last() == name.last());
    law_bare_stays(safe, CharSet::OneOf("."));
    law_bare_stays(safe, CharSet::OneOf("-"));
    if safe == "."@ || safe == ".."@ {
        assert(safe[0] == '.');
    }
    let part = if name.len() > 96 {
        safe.take(96)
    } else {
        safe
    };
    assert(part[0] == safe[0]);
    assert(!is_space(part.last())) by {
        let k = part.len() - 1;
        assert(part[k] == safe[k]);
    }
    law_bare_stays(part, CharSet::Space);
}

/// Dots around a name are taken away, and then hyphens and what may not stand in it.
pub proof fn law_signs_around_names_are_taken(
    dots: Seq<char>,
    dashes: Seq<char>,
    name: Seq<char>,
    more_dashes: Seq<char>,
    more_dots: Seq<char>,
    fallback: Seq<char>,
)
    requires
        name.len() > 0,
        firm(name[0]),
        firm(name.last()),
        forall|i: int| 0 <= i < dots.len() ==> #[trigger] dots[i] == '.',
        forall|i: int| 0 <= i < more_dots.len() ==> #[trigger] more_dots[i] == '.',
        forall|i: int| 0 <= i < dashes.len() ==> !kept(#[trigger] dashes[i]) || dashes[i] == '-',
        forall|i: int|
            0 <= i < more_dashes.len() ==> !kept(#[trigger] more_dashes[i]) || more_dashes[i]
                == '-',
    ensures
        path_component(dots + (dashes + name + more_dashes) + more_dots, fallback)
            == path_component(name, fallback),
        path_component(dots, fallback) == fallback,
{
    reveal_strlit(".");
    reveal_strlit("-");
    reveal_strlit("..");
    assert("."@ =~= seq!['.']);
    assert("-"@ =~= seq!['-']);
    assert("."@[0] == '.' && "-"@[0] == '-');
    law_names_are_kept(name, fallback);
    let safe = path_component(name, fallback);
    let value = dots + (dashes + name + more_dashes) + more_dots;
    let a = Seq::new(dashes.len(), |i: int| '-');
    let b = Seq::new(more_dashes.len(), |i: int| '-');
    let inner = a + safe + b;
    let mapped = Seq::new(value.len(), |i: int| crate::slack_files::file_char(value[i]));
    assert(mapped =~= dots + inner + more_dots) by {
        let d = dots.len() as int;
        let e = d + dashes.len();
        let f = e + name.len();
        let g = f + more_dashes.len();
        assert forall|i: int| 0 <= i < mapped.len() implies mapped[i] == (dots + inner
            + more_dots)[i] by {
            if i < d {
                assert(value[i] == dots[i]);
            } else if i < e {
                assert(value[i] == dashes[i - d]);
            } else if i < f {
                assert(value[i] == name[i - e]);
                assert(inner[i - d] == safe[i - e]);
            } else if i < g {
                assert(value[i] == more_dashes[i - f]);
            } else {
                assert(value[i] == more_dots[i - g]);
            }
        }
    }
    let dot = CharSet::OneOf(".");
    let dash = CharSet::OneOf("-");
    assert(safe[0] == name[0] && safe.last() == name.last());
    assert(bare(inner, dot)) by {
        if dashes.len() > 0 {
            assert(inner[0] == a[0]);
        } else {
            assert(inner[0] == safe[0]);
        }
        if more_dashes.len() > 0 {
            assert(inner.last() == b[b.len() - 1]);
        } else {
            assert(inner.last() == safe.last());
        }
    }
    crate::text_laws::law_trim_around(dots, inner, more_dots, dot);
    crate::text_laws::law_trim_around(a, safe, b, dash);
    if safe == "."@ || safe == ".."@ {
        assert(safe[0] == '.');
    }
    let only = Seq::new(dots.len(), |i: int| crate::slack_files::file_char(dots[i]));
    assert(only =~= dots);
    crate::text_laws::law_trim_start_run(dots, seq![], dot);
    assert(dots + seq![] =~= dots);
}

/// A name of which nothing may stand in the name of a file has the fallback in its place.
pub proof fn law_bad_names_are_replaced(name: Seq<char>, fallback: Seq<char>)
    requires
        forall|i: int| 0 <= i < name.len() ==> !kept(#[trigger] name[i]) || name[i] == '-',
    ensures
        path_component(name, fallback) == fallback,
{
    reveal_strlit(".");
    reveal_strlit("-");
    assert("."@ =~= seq!['.']);
    assert("-"@ =~= seq!['-']);
    assert("-"@[0] == '-');
    let mapped = Seq::new(name.len(), |i: int| crate::slack_files::file_char(name[i]));
    assert forall|i: int| 0 <= i < mapped.len() implies #[trigger] mapped[i] == '-' by {
        assert(!kept(name[i]) || name[i] == '-');
    }
    if mapped.len() > 0 {
        law_bare_stays(mapped, CharSet::OneOf("."));
    }
    crate::text_laws::law_trim_start_run(mapped, seq![], CharSet::OneOf("-"));
    assert(mapped + seq![] =~= mapped);
}

/// A file is kept in the inbox, in a directory of its session, under its number among the
/// files of its message, from one on and with at least two digits, and its name.
pub proof fn law_files_have_their_place(job: JobView)
    requires
        job.session.len() > 0,
        firm(job.session[0]) && firm(job.session.last()),
        ({
            let name = job.attachments[job.index as int].name;
            name.len() > 0 && name.len() <= 96 && firm(name[0]) && firm(name.last())
        }),
    ensures
        ({
            let name = job.attachments[job.index as int].name;
            let session = job.session;
            current_path(job) == ".openorchestrator/inbox/"@ + Seq::new(
                session.len(),
                |i: int|
                    if kept(session[i]) {
                        session[i]
                    } else {
                        '-'
                    },
            ) + (if job.index < 9 {
                "/0"@
            } else {
                "/"@
            }) + decimal(job.index + 1) + "-"@ + Seq::new(
                name.len(),
                |i: int|
                    if kept(name[i]) {
                        name[i]
                    } else {
                        '-'
                    },
            )
        }),
{
    let name = job.attachments[job.index as int].name;
    law_names_are_kept(job.session, "slack-session"@);
    law_names_are_kept(name, "attachment.bin"@);
    reveal_strlit("/0");
    reveal_strlit("/");
    reveal_strlit("0");
    let head = ".openorchestrator/inbox/"@ + path_component(job.session, "slack-session"@);
    assert(head + "/"@ + ("0"@ + decimal(job.index + 1)) =~= head + "/0"@ + decimal(
        job.index + 1,
    ));
}

// Workspaces.
/// Files are kept where the agents work, each in its own workspace or else where the
/// brain works; where the brain works alone if there are no agents.
pub proof fn law_files_go_where_agents_work(cfg: ConfigView, home: Option<Seq<char>>, i: int)
    requires
        0 <= i < cfg.agents.len(),
        settled(cfg, i),
    ensures
        ({
            let place = place_of(
                if cfg.agents[i].workspace is Some {
                    cfg.agents[i].workspace->0
                } else {
                    cfg.brain.workspace
                },
                home,
            );
            exists|k: int|
                0 <= k < agent_workspaces(cfg, home).len() && (#[trigger] agent_workspaces(
                    cfg,
                    home,
                )[k]).shown(home) == place.shown(home)
        }),
{
    let all = Seq::new(
        cfg.agents.len(),
        |i: int| agent_workspace(cfg.agents[i], cfg.brain.workspace, home),
    );
    let w = if cfg.agents[i].workspace is Some {
        cfg.agents[i].workspace->0
    } else {
        cfg.brain.workspace
    };
    lemma_not_legacy(w);
    crate::command_laws::lemma_place_of(w, home);
    assert(all[i] == place_of(w, home));
    let keys = Seq::new(all.len(), |i: int| all[i].shown(home));
    let places = first_places(keys);
    law_first_places(keys);
    law_distinct(keys);
    assert(keys[i] == place_of(w, home).shown(home));
    assert(keys.contains(keys[i]));
    let once = Seq::new(places.len(), |k: int| keys[places[k]]);
    assert(once == distinct(keys));
    assert(once.contains(keys[i]));
    let k = choose|k: int| 0 <= k < once.len() && once[k] == keys[i];
    assert(0 <= places[k] < keys.len());
    assert(agent_workspaces(cfg, home)[k] == all[places[k]]);
    assert(agent_workspaces(cfg, home)[k].shown(home) == keys[i]);
}

/// Where an agent works, where its workspace is not the old one.
pub open spec fn agent_place(cfg: ConfigView, home: Option<Seq<char>>, i: int) -> FilePathView {
    place_of(
        if cfg.agents[i].workspace is Some {
            cfg.agents[i].workspace->0
        } else {
            cfg.brain.workspace
        },
        home,
    )
}

/// Files are kept where the agents work and nowhere else, in the order of the agents, and
/// once where several work in the same place.
pub proof fn law_files_go_nowhere_else(
    cfg: ConfigView,
    home: Option<Seq<char>>,
    places: Seq<int>,
)
    requires
        cfg.agents.len() > 0,
        forall|i: int| 0 <= i < cfg.agents.len() ==> #[trigger] settled(cfg, i),
        new_places(
            Seq::new(cfg.agents.len(), |i: int| agent_place(cfg, home, i).shown(home)),
            places,
        ),
    ensures
        agent_workspaces(cfg, home) == Seq::new(
            places.len(),
            |k: int| agent_place(cfg, home, places[k]),
        ),
{
    let all = Seq::new(
        cfg.agents.len(),
        |i: int| agent_workspace(cfg.agents[i], cfg.brain.workspace, home),
    );
    assert forall|i: int| 0 <= i < all.len() implies #[trigger] all[i] == agent_place(
        cfg,
        home,
        i,
    ) by {
        assert(settled(cfg, i));
        let w = if cfg.agents[i].workspace is Some {
            cfg.agents[i].workspace->0
        } else {
            cfg.brain.workspace
        };
        lemma_not_legacy(w);
        crate::command_laws::lemma_place_of(w, home);
    }
    let keys = Seq::new(all.len(), |i: int| all[i].shown(home));
    let shown = Seq::new(cfg.agents.len(), |i: int| agent_place(cfg, home, i).shown(home));
    assert(keys =~= shown);
    law_new_places(shown, places);
    assert(agent_workspaces(cfg, home) =~= Seq::new(
        places.len(),
        |k: int| agent_place(cfg, home, places[k]),
    ));
}

/// Where there are no agents, files are kept where the brain works.
pub proof fn law_files_go_where_the_brain_works(cfg: ConfigView, home: Option<Seq<char>>)
    requires
        cfg.agents.len() == 0,
        !crate::text::contains_text(cfg.brain.workspace, ".openclaw/workspace"@),
    ensures
        agent_workspaces(cfg, home) == seq![place_of(cfg.brain.workspace, home)],
{
    lemma_not_legacy(cfg.brain.workspace);
    crate::command_laws::lemma_place_of(cfg.brain.workspace, home);
}

/// A file that a reply names is looked for as named where that is from the root, and else
/// in the current directory first and then in each workspace, in their order, as far as
/// these are different places.
pub proof fn law_files_are_looked_for_in_order(
    path: Seq<char>,
    cwd: Seq<char>,
    roots: Seq<Seq<char>>,
)
    requires
        path.len() > 0 && path[0] != '/',
        cwd.len() > 0 && cwd.last() != '/',
        forall|i: int|
            0 <= i < roots.len() ==> (#[trigger] roots[i]).len() > 0 && roots[i].last() != '/'
                && roots[i] != cwd,
        forall|i: int, j: int| 0 <= i < j < roots.len() ==> #[trigger] roots[i] != #[trigger] roots[j],
        roots.len() <= usize::MAX,
    ensures
        ({
            let all = upload_candidates(path, Some(cwd), roots);
            &&& all.len() == roots.len() + 1
            &&& all[0] == (CandidateView {
                seen_from: SeenFrom::CurrentDir,
                shown: cwd + "/"@ + path,
            })
            &&& forall|i: int|
                0 <= i < roots.len() ==> #[trigger] all[i + 1] == (CandidateView {
                    seen_from: SeenFrom::Workspace(i as usize),
                    shown: roots[i] + "/"@ + path,
                })
        }),
        upload_candidates("/"@ + path, Some(cwd), roots) == seq![
            CandidateView { seen_from: SeenFrom::Root, shown: "/"@ + path },
        ],
{
    reveal_strlit("/");
    assert(("/"@ + path).take(1) =~= "/"@);
    if has_prefix(path, "/"@) {
        assert(path.take(1)[0] == '/');
    }
    let all = relative_candidates(path, Some(cwd), roots);
    let keys = candidate_texts(all);
    crate::config_laws::law_paths_are_joined(cwd, path);
    assert(keys[0] == cwd + "/"@ + path);
    assert forall|i: int| 0 <= i < roots.len() implies #[trigger] keys[i + 1] == roots[i] + "/"@
        + path by {
        crate::config_laws::law_paths_are_joined(roots[i], path);
        assert(all[i + 1].shown == joined_path(roots[i], path));
    }
    assert forall|i: int, j: int| 0 <= i < j < keys.len() implies keys[i] != keys[j] by {
        let b = roots[j - 1];
        assert(keys[j - 1 + 1] == b + "/"@ + path);
        let a = if i == 0 {
            cwd
        } else {
            roots[i - 1]
        };
        if i > 0 {
            assert(keys[i - 1 + 1] == a + "/"@ + path);
        }
        if keys[i] == keys[j] {
            assert(a.len() == b.len());
            assert((a + "/"@ + path).take(a.len() as int) =~= a);
            assert((b + "/"@ + path).take(b.len() as int) =~= b);
        }
    }
    lemma_all_first(keys);
    assert(upload_candidates(path, Some(cwd), roots) =~= all);
}

/// A file that a reply names from where it is written is looked for in the current
/// directory, where there is one, and in each workspace, in this order, and once where
/// several of these name the same file.
pub proof fn law_files_are_looked_for_once(
    path: Seq<char>,
    cwd: Option<Seq<char>>,
    roots: Seq<Seq<char>>,
    places: Seq<int>,
)
    requires
        path.len() > 0 && path[0] != '/',
        ({
            let first: int = if cwd is Some {
                1
            } else {
                0
            };
            new_places(
                Seq::new(
                    (roots.len() + first) as nat,
                    |i: int|
                        if i < first {
                            joined_path(cwd->0, path)
                        } else {
                            joined_path(roots[i - first], path)
                        },
                ),
                places,
            )
        }),
    ensures
        ({
            let first: int = if cwd is Some {
                1
            } else {
                0
            };
            upload_candidates(path, cwd, roots) == Seq::new(
                places.len(),
                |k: int|
                    if places[k] < first {
                        CandidateView {
                            seen_from: SeenFrom::CurrentDir,
                            shown: joined_path(cwd->0, path),
                        }
                    } else {
                        CandidateView {
                            seen_from: SeenFrom::Workspace((places[k] - first) as usize),
                            shown: joined_path(roots[places[k] - first], path),
                        }
                    },
            )
        }),
{
    let first: int = if cwd is Some {
        1
    } else {
        0
    };
    reveal_strlit("/");
    if has_prefix(path, "/"@) {
        assert(path.take(1)[0] == '/');
    }
    let all = relative_candidates(path, cwd, roots);
    let keys = Seq::new(
        (roots.len() + first) as nat,
        |i: int|
            if i < first {
                joined_path(cwd->0, path)
            } else {
                joined_path(roots[i - first], path)
            },
    );
    assert(candidate_texts(all) =~= keys);
    law_new_places(keys, places);
    let told = Seq::new(
        places.len(),
        |k: int|
            if places[k] < first {
                CandidateView {
                    seen_from: SeenFrom::CurrentDir,
                    shown: joined_path(cwd->0, path),
                }
            } else {
                CandidateView {
                    seen_from: SeenFrom::Workspace((places[k] - first) as usize),
                    shown: joined_path(roots[places[k] - first], path),
                }
            },
    );
    assert forall|k: int| 0 <= k < places.len() implies all[places[k]] == told[k] by {
        assert(0 <= places[k] < keys.len());
    }
    assert(upload_candidates(path, cwd, roots) =~= told);
}

proof fn lemma_all_first(keys: Seq<Seq<char>>)
    requires
        forall|i: int, j: int| 0 <= i < j < keys.len() ==> keys[i] != keys[j],
    ensures
        first_places(keys) == Seq::new(keys.len(), |i: int| i),
    decreases keys.len(),
{
    if keys.len() > 0 {
        let rest = keys.drop_last();
        assert forall|i: int, j: int| 0 <= i < j < rest.len() implies rest[i] != rest[j] by {
            assert(rest[i] == keys[i] && rest[j] == keys[j]);
        }
        lemma_all_first(rest);
        if rest.contains(keys.last()) {
            let i = choose|i: int| 0 <= i < rest.len() && rest[i] == keys.last();
            assert(keys[i] != keys[keys.len() - 1]);
        }
        assert(first_places(keys) =~= Seq::new(keys.len(), |i: int| i));
    } else {
        assert(first_places(keys) =~= Seq::new(keys.len(), |i: int| i));
    }
}

} // verus!
