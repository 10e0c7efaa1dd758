//! The key hints of the controls bar.
use vstd::prelude::*;
use vstd::string::*;

use crate::text::{owned, str_eq};
use crate::app::state::Focus;
use crate::config::Keybinds;
use crate::ui::style::{bold_str, bsp, line_view, plain, plain_str, push_span, sp, span_view, SpanView, Styled, Tone};

verus! {

/// The name a key is shown under: the space bar as "Space", any other key as itself.
pub fn key_name(key: String) -> (r: String)
    ensures
        key@ == " "@ ==> r@ == "Space"@,
        key@ != " "@ ==> r@ == key@,
{
    let space = " ";
    if str_eq(key.as_str(), space) {
        owned("Space")
    } else {
        key
    }
}

/// The text of one hint: the key name between spaces, then the label after a space.
pub open spec fn hint_text(key: Seq<char>, label: Seq<char>) -> Seq<char> {
    " "@ + key + " "@ + " "@ + label
}

/// The hint texts of a command line, separated by two spaces (the styled spans of the
/// controls bar, laid end to end).
pub open spec fn command_line_spec(keys: Seq<Seq<char>>, labels: Seq<Seq<char>>) -> Seq<char>
    decreases keys.len(),
{
    if keys.len() == 0 || labels.len() == 0 {
        seq![]
    } else if keys.len() == 1 || labels.len() == 1 {
        hint_text(keys[0], labels[0])
    } else {
        command_line_spec(keys.drop_last(), labels.drop_last()) + "  "@ + hint_text(
            keys.last(),
            labels.last(),
        )
    }
}

/// The name a key is shown under.
pub open spec fn key_name_spec(key: Seq<char>) -> Seq<char> {
    if key == " "@ {
        "Space"@
    } else {
        key
    }
}

/// The runs of a command line: for each hint the key name in reversed bold cyan and the
/// label after it, two dimmed spaces between hints.
pub open spec fn command_spans(keys: Seq<Seq<char>>, labels: Seq<Seq<char>>) -> Seq<SpanView>
    decreases keys.len(),
{
    if keys.len() == 0 || labels.len() == 0 {
        seq![]
    } else {
        let n = keys.len();
        let before = if keys.len() == 1 || labels.len() == 1 {
            seq![]
        } else {
            command_spans(keys.drop_last(), labels.drop_last()) + seq![sp("  "@, Tone::DarkGray)]
        };
        let (k, l) = if keys.len() == 1 || labels.len() == 1 {
            (keys[0], labels[0])
        } else {
            (keys.last(), labels.last())
        };
        before + seq![
            SpanView { text: " "@ + k + " "@, tone: Tone::Cyan, bold: true, reversed: true },
            sp(" "@ + l, Tone::Gray),
        ]
    }
}

/// The text of runs laid end to end.
pub open spec fn spans_text(s: Seq<SpanView>) -> Seq<char>
    decreases s.len(),
{
    if s.len() == 0 {
        seq![]
    } else {
        spans_text(s.drop_last()) + s.last().text
    }
}

proof fn lemma_spans_text_append(a: Seq<SpanView>, b: Seq<SpanView>)
    ensures
        spans_text(a + b) == spans_text(a) + spans_text(b),
    decreases b.len(),
{
    if b.len() == 0 {
        assert(a + b =~= a);
    } else {
        lemma_spans_text_append(a, b.drop_last());
        assert((a + b).drop_last() =~= a + b.drop_last());
    }
}

proof fn lemma_spans_text_one(a: SpanView)
    ensures
        spans_text(seq![a]) == a.text,
{
    assert(seq![a].drop_last() =~= Seq::<SpanView>::empty());
    assert(spans_text(Seq::<SpanView>::empty()) == Seq::<char>::empty());
    assert(spans_text(seq![a]) == spans_text(seq![a].drop_last()) + a.text);
    assert(Seq::<char>::empty() + a.text =~= a.text);
}

proof fn lemma_spans_text_two(a: SpanView, b: SpanView)
    ensures
        spans_text(seq![a, b]) == a.text + b.text,
{
    assert(seq![a, b].drop_last() =~= seq![a]);
    lemma_spans_text_one(a);
    assert(spans_text(seq![a, b]) == spans_text(seq![a, b].drop_last()) + b.text);
}

/// Law: the runs of a command line read, laid end to end, as the hints in order.
pub proof fn law_command_line_text(keys: Seq<Seq<char>>, labels: Seq<Seq<char>>)
    requires
        keys.len() == labels.len(),
    ensures
        spans_text(command_spans(keys, labels)) == command_line_spec(keys, labels),
    decreases keys.len(),
{
    if keys.len() > 1 {
        law_command_line_text(keys.drop_last(), labels.drop_last());
        let head = command_spans(keys.drop_last(), labels.drop_last()) + seq![
            sp("  "@, Tone::DarkGray),
        ];
        let tail = seq![
            SpanView {
                text: " "@ + keys.last() + " "@,
                tone: Tone::Cyan,
                bold: true,
                reversed: true,
            },
            sp(" "@ + labels.last(), Tone::Gray),
        ];
        lemma_spans_text_append(head, tail);
        lemma_spans_text_append(
            command_spans(keys.drop_last(), labels.drop_last()),
            seq![sp("  "@, Tone::DarkGray)],
        );
        lemma_spans_text_one(sp("  "@, Tone::DarkGray));
        lemma_spans_text_two(tail[0], tail[1]);
        assert(tail =~= seq![tail[0], tail[1]]);
        assert(spans_text(tail) =~= hint_text(keys.last(), labels.last()));
    } else if keys.len() == 1 {
        let tail = seq![
            SpanView { text: " "@ + keys[0] + " "@, tone: Tone::Cyan, bold: true, reversed: true },
            sp(" "@ + labels[0], Tone::Gray),
        ];
        assert(command_spans(keys, labels) =~= Seq::<SpanView>::empty() + tail);
        lemma_spans_text_two(tail[0], tail[1]);
        assert(tail =~= seq![tail[0], tail[1]]);
        assert(Seq::<SpanView>::empty() + tail =~= tail);
        assert(spans_text(tail) =~= hint_text(keys[0], labels[0]));
    }
}

/// The runs of a command line of `(key, label)` hints, in order.
pub fn command_line(commands: Vec<(String, &str)>) -> (r: Vec<Styled>)
    ensures
        line_view(r@) == command_spans(
            commands@.map_values(|c: (String, &str)| key_name_spec(c.0@)),
            commands@.map_values(|c: (String, &str)| c.1@),
        ),
{
    let ghost keys = commands@.map_values(|c: (String, &str)| key_name_spec(c.0@));
    let ghost labels = commands@.map_values(|c: (String, &str)| c.1@);
    let mut out: Vec<Styled> = Vec::new();
    let mut i: usize = 0;
    while i < commands.len()
        invariant
            i <= commands@.len(),
            keys.len() == commands@.len(),
            labels.len() == commands@.len(),
            keys == commands@.map_values(|c: (String, &str)| key_name_spec(c.0@)),
            labels == commands@.map_values(|c: (String, &str)| c.1@),
            line_view(out@) == command_spans(keys.take(i as int), labels.take(i as int)),
        decreases commands.len() - i,
    {
        let key = key_name(commands[i].0.clone());
        let label = commands[i].1;
        proof {
            assert(keys.take(i + 1).drop_last() =~= keys.take(i as int));
            assert(labels.take(i + 1).drop_last() =~= labels.take(i as int));
        }
        assert(key@ == keys[i as int]);
        if i > 0 {
            push_span(&mut out, plain_str("  ", Tone::DarkGray));
        }
        let mut k = owned(" ");
        k.append(key.as_str());
        k.append(" ");
        push_span(&mut out, Styled { text: k, tone: Tone::Cyan, bold: true, reversed: true });
        let mut l = owned(" ");
        l.append(label);
        push_span(&mut out, plain(l, Tone::Gray));
        proof {
            if i == 0 {
                assert(keys.take(1) =~= seq![keys[0]]);
                assert(labels.take(1) =~= seq![labels[0]]);
            }
            assert(line_view(out@) =~= command_spans(keys.take(i + 1), labels.take(i + 1)));
        }
        i = i + 1;
    }
    assert(keys.take(commands.len() as int) =~= keys);
    assert(labels.take(commands.len() as int) =~= labels);
    out
}

/// The title of the controls bar: the mode the keys act in.
pub fn controls_title(search_mode: bool, focus: Focus) -> (s: Styled)
    ensures
        span_view(s) == bsp(
            if search_mode {
                " FILTER "@
            } else if focus == Focus::Services {
                " SERVICES "@
            } else {
                " ACTIVITY "@
            },
            if search_mode {
                Tone::Yellow
            } else {
                Tone::Blue
            },
        ),
{
    let text = if search_mode {
        " FILTER "
    } else if focus == Focus::Services {
        " SERVICES "
    } else {
        " ACTIVITY "
    };
    bold_str(text, if search_mode {
        Tone::Yellow
    } else {
        Tone::Blue
    })
}

/// The hints of the controls bar, keys and labels: for the search box, for the services
/// pane, or for the activity pane.
pub open spec fn controls_hints(search_mode: bool, focus: Focus, kb: Keybinds) -> (
    Seq<Seq<char>>,
    Seq<Seq<char>>,
) {
    let nav = kb.app.scroll_down@ + "/"@ + kb.app.scroll_up@;
    if search_mode {
        (seq!["Enter"@, "Esc"@, "type"@], seq!["select"@, "cancel"@, "filter projects"@])
    } else if focus == Focus::Services {
        (
            seq![
                kb.services.toggle@,
                kb.services.auto_restart@,
                kb.app.search@,
                nav,
                "l"@,
                kb.app.quit@,
            ],
            seq!["start/stop"@, "auto-start"@, "filter"@, "move"@, "activity"@, "quit"@],
        )
    } else {
        (
            seq![
                kb.logs.toggle_auto_scroll@,
                kb.app.switch_tab_left@ + "/"@ + kb.app.switch_tab_right@,
                nav,
                "h"@,
                kb.app.refresh@,
                kb.app.quit@,
            ],
            seq!["auto-scroll"@, "view"@, "scroll"@, "services"@, "refresh"@, "quit"@],
        )
    }
}

fn pair_text(a: &String, b: &String) -> (r: String)
    ensures
        r@ == a@ + "/"@ + b@,
{
    let mut r = a.clone();
    r.append("/");
    r.append(b.as_str());
    r
}

/// The runs of the controls bar.
pub fn controls_line(search_mode: bool, focus: Focus, kb: &Keybinds) -> (r: Vec<Styled>)
    ensures
        line_view(r@) == command_spans(
            controls_hints(search_mode, focus, *kb).0.map_values(|k: Seq<char>| key_name_spec(k)),
            controls_hints(search_mode, focus, *kb).1,
        ),
{
    let mut commands: Vec<(String, &str)> = Vec::new();
    if search_mode {
        commands.push((owned("Enter"), "select"));
        commands.push((owned("Esc"), "cancel"));
        commands.push((owned("type"), "filter projects"));
    } else if focus == Focus::Services {
        commands.push((kb.services.toggle.clone(), "start/stop"));
        commands.push((kb.services.auto_restart.clone(), "auto-start"));
        commands.push((kb.app.search.clone(), "filter"));
        commands.push((pair_text(&kb.app.scroll_down, &kb.app.scroll_up), "move"));
        commands.push((owned("l"), "activity"));
        commands.push((kb.app.quit.clone(), "quit"));
    } else {
        commands.push((kb.logs.toggle_auto_scroll.clone(), "auto-scroll"));
        commands.push((pair_text(&kb.app.switch_tab_left, &kb.app.switch_tab_right), "view"));
        commands.push((pair_text(&kb.app.scroll_down, &kb.app.scroll_up), "scroll"));
        commands.push((owned("h"), "services"));
        commands.push((kb.app.refresh.clone(), "refresh"));
        commands.push((kb.app.quit.clone(), "quit"));
    }
    let ghost h = controls_hints(search_mode, focus, *kb);
    assert(commands@.map_values(|c: (String, &str)| key_name_spec(c.0@)) =~= h.0.map_values(
        |k: Seq<char>| key_name_spec(k),
    ));
    assert(commands@.map_values(|c: (String, &str)| c.1@) =~= h.1);
    command_line(commands)
}

} // verus!
