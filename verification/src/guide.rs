//! The user guide that the help window shows: which headings, features and
//! notes appear, and in what order, for each help topic. Drawing them is the
//! user interface's business; what to draw is decided here.
use vstd::prelude::*;
use crate::help::HelpTopic;

verus! {

/// One element of the user guide.
#[derive(Debug, Clone, PartialEq, Eq)]
pub enum GuideItem {
    /// A section heading.
    Heading(String),
    /// A feature: its name, then what it does.
    Feature(String, String),
    /// A paragraph of text.
    Text(String),
    /// A little vertical space.
    Space,
    /// The link that opens the Pikchr grammar reference.
    GrammarLink,
    /// A horizontal rule.
    Separator,
}

/// The mathematical content of a `GuideItem`.
pub enum GuideItemV {
    Heading(Seq<char>),
    Feature(Seq<char>, Seq<char>),
    Text(Seq<char>),
    Space,
    GrammarLink,
    Separator,
}

impl View for GuideItem {
    type V = GuideItemV;

    open spec fn view(&self) -> GuideItemV {
        match self {
            GuideItem::Heading(t) => GuideItemV::Heading(t@),
            GuideItem::Feature(n, d) => GuideItemV::Feature(n@, d@),
            GuideItem::Text(t) => GuideItemV::Text(t@),
            GuideItem::Space => GuideItemV::Space,
            GuideItem::GrammarLink => GuideItemV::GrammarLink,
            GuideItem::Separator => GuideItemV::Separator,
        }
    }
}

/// The views of a sequence of guide items.
pub open spec fn items_view(s: Seq<GuideItem>) -> Seq<GuideItemV> {
    s.map_values(|x: GuideItem| x@)
}

/// Appends `more` to `out`.
fn push_all_items(out: &mut Vec<GuideItem>, more: Vec<GuideItem>)
    ensures
        items_view(final(out)@) == items_view(old(out)@) + items_view(more@),
{
    let ghost start = items_view(out@);
    let mut k: usize = 0;
    while k < more.len()
        invariant
            0 <= k <= more.len(),
            items_view(out@) == start + items_view(more@).take(k as int),
        decreases more.len() - k,
    {
        let ghost before = items_view(out@);
        out.push(more[k].clone_item());
        assert(items_view(out@) =~= before.push(more@[k as int]@));
        assert(items_view(more@).take(k + 1) =~= items_view(more@).take(k as int).push(more@[k as int]@));
        k = k + 1;
    }
    assert(items_view(more@).take(more.len() as int) =~= items_view(more@));
}

impl GuideItem {
    /// A copy of the item.
    pub fn clone_item(&self) -> (r: GuideItem)
        ensures
            r@ == self@,
    {
        match self {
            GuideItem::Heading(t) => GuideItem::Heading(t.clone()),
            GuideItem::Feature(n, d) => GuideItem::Feature(n.clone(), d.clone()),
            GuideItem::Text(t) => GuideItem::Text(t.clone()),
            GuideItem::Space => GuideItem::Space,
            GuideItem::GrammarLink => GuideItem::GrammarLink,
            GuideItem::Separator => GuideItem::Separator,
        }
    }
}

/// The help on editing that every editor topic begins with.
pub open spec fn common_editor_items() -> Seq<GuideItemV> {
    seq![
        GuideItemV::Heading("Editing"@),
        GuideItemV::Feature(
            "Live updates"@,
            "The render and dependent windows update automatically after you edit source."@,
        ),
        GuideItemV::Feature(
            "Cmd/Ctrl+R"@,
            "Renames the focused editor. Names are used by cross-window references."@,
        ),
        GuideItemV::Feature(
            "Enter"@,
            "Inserts a newline and automatically carries or adjusts indentation."@,
        ),
        GuideItemV::Feature(
            "Close button"@,
            "Hides the window. Reopen it from Windows in the main menu."@,
        ),
        GuideItemV::Feature(
            "Cmd/Ctrl + close button"@,
            "Permanently deletes the editor and its render window from the workspace."@,
        ),
        GuideItemV::Heading("Cross-window references"@),
        GuideItemV::Feature(
            "!!NAME!!"@,
            "Includes the raw source text of another named editor. Plain text windows can be included this way."@,
        ),
        GuideItemV::Feature(
            "$$NAME$$"@,
            "Includes the generated Pikchr output of another named diagram editor."@,
        ),
        GuideItemV::Text("References can be nested up to three replacement passes."@),
    ]
}

/// The part of the guide specific to `topic`: nothing for the overview and
/// the grammar reference; for each editor, the editing help and then a note
/// on that editor; for the render window, its features.
pub open spec fn topic_items(topic: HelpTopic) -> Seq<GuideItemV> {
    match topic {
        HelpTopic::Overview | HelpTopic::Grammar => Seq::empty(),
        HelpTopic::Pikchr => common_editor_items()
            + seq![
                GuideItemV::Heading("Pikchr"@),
                GuideItemV::Text(
                    "Write Pikchr directly. Valid source is rendered live in the paired Render window."@,
                ),
                GuideItemV::Space,
                GuideItemV::GrammarLink,
            ],
        HelpTopic::Prolog => common_editor_items()
            + seq![
                GuideItemV::Heading("Prolog"@),
                GuideItemV::Text(
                    "Define a diagram//0 DCG. Its text output is interpreted as Pikchr."@,
                ),
            ],
        HelpTopic::Tcl => common_editor_items()
            + seq![
                GuideItemV::Heading("Tcl"@),
                GuideItemV::Text(
                    "Return a string containing Pikchr source. The Tcl editor is available only when Tcl 8.6 can be loaded."@,
                ),
            ],
        HelpTopic::Mruby => common_editor_items()
            + seq![
                GuideItemV::Heading("Ruby"@),
                GuideItemV::Text(
                    "Text written with print or puts becomes Pikchr source. The editor is available only when Ruby support is available."@,
                ),
            ],
        HelpTopic::PlainText => common_editor_items()
            + seq![
                GuideItemV::Heading("Plain text"@),
                GuideItemV::Text(
                    "Stores reusable raw text. Include it from another editor with !!NAME!!; it has no generated Pikchr output or Render window."@,
                ),
            ],
        HelpTopic::Render => seq![
                GuideItemV::Heading("Render window"@),
                GuideItemV::Feature(
                    "Automatic preview"@,
                    "Displays the paired editor's generated Pikchr output and redraws as the window is resized."@,
                ),
                GuideItemV::Feature(
                    "Export"@,
                    "Exports SVG, PNG, transparent PNG, or copies generated Pikchr code to the clipboard."@,
                ),
                GuideItemV::Feature(
                    "Close button"@,
                    "Hides the preview. Reopen it from Windows in the main menu."@,
                ),
                GuideItemV::Feature(
                    "Cmd/Ctrl + close button"@,
                    "Permanently deletes only this Render window. It is recreated when its editor next renders."@,
                ),
            ],
    }
}

/// The full feature guide, which ends every page of the guide.
pub open spec fn feature_guide_items() -> Seq<GuideItemV> {
    seq![
        GuideItemV::Heading("Workspace"@),
        GuideItemV::Feature(
            "Autosave"@,
            "The current workspace and window layout persist between app launches."@,
        ),
        GuideItemV::Feature(
            "Save / Load Workspace"@,
            "Exports or imports the complete workspace as JSON."@,
        ),
        GuideItemV::Feature(
            "Reset Workspace"@,
            "Deletes all workspace windows after confirmation."@,
        ),
        GuideItemV::Feature(
            "Windows"@,
            "Shows or hides existing windows, plus the diagnostic Logger and Debug windows."@,
        ),
        GuideItemV::Feature("View"@, "Changes the scale of the complete interface."@),
    ]
    + common_editor_items()
    + seq![
        GuideItemV::Heading("Editor types"@),
        GuideItemV::Feature("Pikchr"@, "Direct Pikchr source with live rendering."@),
        GuideItemV::Feature("Prolog"@, "A diagram//0 DCG generates Pikchr source."@),
        GuideItemV::Feature(
            "Tcl"@,
            "A Tcl script returns Pikchr source when Tcl 8.6 is available."@,
        ),
        GuideItemV::Feature(
            "Ruby"@,
            "print and puts output becomes Pikchr when Ruby support is available."@,
        ),
        GuideItemV::Feature(
            "Plain text"@,
            "Reusable raw text for !!NAME!! references; no paired render."@,
        ),
        GuideItemV::Heading("Rendering and export"@),
        GuideItemV::Feature(
            "Live Render window"@,
            "Diagram editors own a paired, resizable preview window."@,
        ),
        GuideItemV::Feature(
            "Export"@,
            "Render windows export SVG, PNG, transparent PNG, and generated Pikchr source."@,
        ),
        GuideItemV::Feature(
            "Errors"@,
            "Evaluation and rendering errors appear next to their editor and in the Logger."@,
        ),
    ]
}

/// The guide page for `topic`: the overview opens with the link to the
/// grammar reference; any other topic opens with its own part, a rule and
/// the heading of the full feature guide; the full feature guide follows.
pub open spec fn guide_view(topic: HelpTopic) -> Seq<GuideItemV> {
    if topic != HelpTopic::Overview {
        topic_items(topic) + seq![
            GuideItemV::Separator,
            GuideItemV::Heading("Full feature guide"@),
        ] + feature_guide_items()
    } else {
        seq![
            GuideItemV::GrammarLink,
            GuideItemV::Space,
        ] + feature_guide_items()
    }
}

/// The help on editing that every editor topic begins with.
pub fn common_editor_help() -> (r: Vec<GuideItem>)
    ensures
        items_view(r@) == common_editor_items(),
{
    let mut out: Vec<GuideItem> = Vec::new();
    out.push(GuideItem::Heading("Editing".to_owned()));
    out.push(GuideItem::Feature(
        "Live updates".to_owned(),
        "The render and dependent windows update automatically after you edit source.".to_owned(),
    ));
    out.push(GuideItem::Feature(
        "Cmd/Ctrl+R".to_owned(),
        "Renames the focused editor. Names are used by cross-window references.".to_owned(),
    ));
    out.push(GuideItem::Feature(
        "Enter".to_owned(),
        "Inserts a newline and automatically carries or adjusts indentation.".to_owned(),
    ));
    out.push(GuideItem::Feature(
        "Close button".to_owned(),
        "Hides the window. Reopen it from Windows in the main menu.".to_owned(),
    ));
    out.push(GuideItem::Feature(
        "Cmd/Ctrl + close button".to_owned(),
        "Permanently deletes the editor and its render window from the workspace.".to_owned(),
    ));
    out.push(GuideItem::Heading("Cross-window references".to_owned()));
    out.push(GuideItem::Feature(
        "!!NAME!!".to_owned(),
        "Includes the raw source text of another named editor. Plain text windows can be included this way.".to_owned(),
    ));
    out.push(GuideItem::Feature(
        "$$NAME$$".to_owned(),
        "Includes the generated Pikchr output of another named diagram editor.".to_owned(),
    ));
    out.push(GuideItem::Text(
        "References can be nested up to three replacement passes.".to_owned(),
    ));
    assert(items_view(out@) =~= common_editor_items());
    out
}

/// The part of the guide specific to `topic`.
pub fn topic_help(topic: HelpTopic) -> (r: Vec<GuideItem>)
    ensures
        items_view(r@) == topic_items(topic),
{
    let mut out: Vec<GuideItem> = Vec::new();
    match topic {
        HelpTopic::Overview | HelpTopic::Grammar => {
        },
        HelpTopic::Pikchr => {
            push_all_items(&mut out, common_editor_help());
            out.push(GuideItem::Heading("Pikchr".to_owned()));
            out.push(GuideItem::Text(
                "Write Pikchr directly. Valid source is rendered live in the paired Render window.".to_owned(),
            ));
            out.push(GuideItem::Space);
            out.push(GuideItem::GrammarLink);
        },
        HelpTopic::Prolog => {
            push_all_items(&mut out, common_editor_help());
            out.push(GuideItem::Heading("Prolog".to_owned()));
            out.push(GuideItem::Text(
                "Define a diagram//0 DCG. Its text output is interpreted as Pikchr.".to_owned(),
            ));
        },
        HelpTopic::Tcl => {
            push_all_items(&mut out, common_editor_help());
            out.push(GuideItem::Heading("Tcl".to_owned()));
            out.push(GuideItem::Text(
                "Return a string containing Pikchr source. The Tcl editor is available only when Tcl 8.6 can be loaded.".to_owned(),
            ));
        },
        HelpTopic::Mruby => {
            push_all_items(&mut out, common_editor_help());
            out.push(GuideItem::Heading("Ruby".to_owned()));
            out.push(GuideItem::Text(
                "Text written with print or puts becomes Pikchr source. The editor is available only when Ruby support is available.".to_owned(),
            ));
        },
        HelpTopic::PlainText => {
            push_all_items(&mut out, common_editor_help());
            out.push(GuideItem::Heading("Plain text".to_owned()));
            out.push(GuideItem::Text(
                "Stores reusable raw text. Include it from another editor with !!NAME!!; it has no generated Pikchr output or Render window.".to_owned(),
            ));
        },
        HelpTopic::Render => {
            out.push(GuideItem::Heading("Render window".to_owned()));
            out.push(GuideItem::Feature(
                "Automatic preview".to_owned(),
                "Displays the paired editor's generated Pikchr output and redraws as the window is resized.".to_owned(),
            ));
            out.push(GuideItem::Feature(
                "Export".to_owned(),
                "Exports SVG, PNG, transparent PNG, or copies generated Pikchr code to the clipboard.".to_owned(),
            ));
            out.push(GuideItem::Feature(
                "Close button".to_owned(),
                "Hides the preview. Reopen it from Windows in the main menu.".to_owned(),
            ));
            out.push(GuideItem::Feature(
                "Cmd/Ctrl + close button".to_owned(),
                "Permanently deletes only this Render window. It is recreated when its editor next renders.".to_owned(),
            ));
        },
    }
    assert(items_view(out@) =~= topic_items(topic));
    out
}

/// The full feature guide.
fn feature_guide() -> (r: Vec<GuideItem>)
    ensures
        items_view(r@) == feature_guide_items(),
{
    let mut out: Vec<GuideItem> = Vec::new();
    out.push(GuideItem::Heading("Workspace".to_owned()));
    out.push(GuideItem::Feature(
        "Autosave".to_owned(),
        "The current workspace and window layout persist between app launches.".to_owned(),
    ));
    out.push(GuideItem::Feature(
        "Save / Load Workspace".to_owned(),
        "Exports or imports the complete workspace as JSON.".to_owned(),
    ));
    out.push(GuideItem::Feature(
        "Reset Workspace".to_owned(),
        "Deletes all workspace windows after confirmation.".to_owned(),
    ));
    out.push(GuideItem::Feature(
        "Windows".to_owned(),
        "Shows or hides existing windows, plus the diagnostic Logger and Debug windows.".to_owned(),
    ));
    out.push(GuideItem::Feature(
        "View".to_owned(),
        "Changes the scale of the complete interface.".to_owned(),
    ));
    let ghost head = items_view(out@);
    assert(head =~= seq![
            GuideItemV::Heading("Workspace"@),
            GuideItemV::Feature(
                "Autosave"@,
                "The current workspace and window layout persist between app launches."@,
            ),
            GuideItemV::Feature(
                "Save / Load Workspace"@,
                "Exports or imports the complete workspace as JSON."@,
            ),
            GuideItemV::Feature(
                "Reset Workspace"@,
                "Deletes all workspace windows after confirmation."@,
            ),
            GuideItemV::Feature(
                "Windows"@,
                "Shows or hides existing windows, plus the diagnostic Logger and Debug windows."@,
            ),
            GuideItemV::Feature("View"@, "Changes the scale of the complete interface."@),
        ]);
    push_all_items(&mut out, common_editor_help());
    let ghost mid = items_view(out@);
    assert(mid == head + common_editor_items());
    out.push(GuideItem::Heading("Editor types".to_owned()));
    out.push(GuideItem::Feature(
        "Pikchr".to_owned(),
        "Direct Pikchr source with live rendering.".to_owned(),
    ));
    out.push(GuideItem::Feature(
        "Prolog".to_owned(),
        "A diagram//0 DCG generates Pikchr source.".to_owned(),
    ));
    out.push(GuideItem::Feature(
        "Tcl".to_owned(),
        "A Tcl script returns Pikchr source when Tcl 8.6 is available.".to_owned(),
    ));
    out.push(GuideItem::Feature(
        "Ruby".to_owned(),
        "print and puts output becomes Pikchr when Ruby support is available.".to_owned(),
    ));
    out.push(GuideItem::Feature(
        "Plain text".to_owned(),
        "Reusable raw text for !!NAME!! references; no paired render.".to_owned(),
    ));
    out.push(GuideItem::Heading("Rendering and export".to_owned()));
    out.push(GuideItem::Feature(
        "Live Render window".to_owned(),
        "Diagram editors own a paired, resizable preview window.".to_owned(),
    ));
    out.push(GuideItem::Feature(
        "Export".to_owned(),
        "Render windows export SVG, PNG, transparent PNG, and generated Pikchr source.".to_owned(),
    ));
    out.push(GuideItem::Feature(
        "Errors".to_owned(),
        "Evaluation and rendering errors appear next to their editor and in the Logger.".to_owned(),
    ));
    assert(items_view(out@) =~= feature_guide_items());
    out
}

/// The guide page for `topic`, item by item.
pub fn guide_items(topic: HelpTopic) -> (r: Vec<GuideItem>)
    ensures
        items_view(r@) == guide_view(topic),
{
    let mut out: Vec<GuideItem> = Vec::new();
    if topic != HelpTopic::Overview {
        push_all_items(&mut out, topic_help(topic));
        out.push(GuideItem::Separator);
        out.push(GuideItem::Heading("Full feature guide".to_owned()));
    } else {
        out.push(GuideItem::GrammarLink);
        out.push(GuideItem::Space);
    }
    push_all_items(&mut out, feature_guide());
    assert(items_view(out@) =~= guide_view(topic));
    out
}

} // verus!
