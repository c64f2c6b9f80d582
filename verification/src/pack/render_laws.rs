//! What a rendered pack shows.

use crate::git::GitInfo;
use crate::graph::model::SymbolView;
use crate::graph::store::{GraphStore, StoreWrite};
use crate::indexer::languages::language_of;
use crate::json::{item, text_or_null, text_unless_empty, JsonView};
use crate::lists::{flat, flat_members, makes};
use crate::pack::json::{
    file_entries, file_json, files_json, pack_entries, repository_entries, repository_json, request_entries, request_json,
    selected_entries, selected_json, symbol_entries, symbol_json,
};
use crate::pack::markdown::{
    file_section, file_sections, heading_section, pack_markdown, selection_line, selection_lines, symbol_line,
    symbol_lines,
};
use crate::pack::request::{PackMode, PackRequest, SelectedView};
use crate::pack::symbols::{file_line_order, file_query, included_symbols, symbols_of_selected};
use crate::sorting::stable_sort_keeps;
use crate::text::{decimal, has, occurs_at, opt_view};
use vstd::prelude::*;

verus! {

// --- modes ----------------------------------------------------------------------------------------
/// A mode is shown by its name and by what was asked for in it.
pub proof fn modes_are_shown(m: PackMode)
    ensures
        m is Changed ==> m.label_text() == "changed"@ && m.asked() == "(changed files)"@,
        m matches PackMode::Path(p) ==> m.label_text() == "path"@ && m.asked() == p@,
        m matches PackMode::Symbol(s) ==> m.label_text() == "symbol"@ && m.asked() == s@,
        m matches PackMode::Query(q) ==> m.label_text() == "query"@ && m.asked() == q@,
{
}

// --- texts within texts ---------------------------------------------------------------------------
proof fn within(a: Seq<char>, p: Seq<char>, b: Seq<char>, s: Seq<char>)
    requires
        s == a + p + b,
    ensures
        has(s, p),
{
    assert(s.subrange(a.len() as int, (a.len() + p.len()) as int) =~= p);
    assert(occurs_at(s, p, a.len() as int));
}

/// What stands in a part stands in the whole.
proof fn in_the_whole(a: Seq<char>, p: Seq<char>, b: Seq<char>, x: Seq<char>)
    requires
        has(p, x),
    ensures
        has(a + p + b, x),
{
    let i = choose|i: int| occurs_at(p, x, i);
    let s = a + p + b;
    assert(s.subrange(a.len() + i, a.len() + i + x.len()) =~= x) by {
        assert(p.subrange(i, i + x.len()) =~= x);
    }
    assert(occurs_at(s, x, a.len() + i));
}

// --- Markdown -------------------------------------------------------------------------------------
proof fn every_selection_line(sel: Seq<SelectedView>, reasons: bool, i: int)
    requires
        0 <= i < sel.len(),
    ensures
        has(selection_lines(sel, reasons), selection_line(sel[i], reasons)),
    decreases sel.len(),
{
    let rest = sel.drop_last();
    let line = selection_line(sel.last(), reasons);
    let all = selection_lines(sel, reasons);
    if i == sel.len() - 1 {
        assert(all =~= selection_lines(rest, reasons) + line + Seq::<char>::empty());
        within(selection_lines(rest, reasons), line, Seq::empty(), all);
    } else {
        every_selection_line(rest, reasons, i);
        in_the_whole(Seq::empty(), selection_lines(rest, reasons), line, selection_line(rest[i], reasons));
        assert(all =~= Seq::<char>::empty() + selection_lines(rest, reasons) + line);
    }
}

proof fn every_symbol_line(symbols: Seq<SymbolView>, i: int)
    requires
        0 <= i < symbols.len(),
    ensures
        has(symbol_lines(symbols), symbol_line(symbols[i])),
    decreases symbols.len(),
{
    let rest = symbols.drop_last();
    let line = symbol_line(symbols.last());
    let all = symbol_lines(symbols);
    if i == symbols.len() - 1 {
        assert(all =~= symbol_lines(rest) + line + Seq::<char>::empty());
        within(symbol_lines(rest), line, Seq::empty(), all);
    } else {
        every_symbol_line(rest, i);
        in_the_whole(Seq::empty(), symbol_lines(rest), line, symbol_line(rest[i]));
        assert(all =~= Seq::<char>::empty() + symbol_lines(rest) + line);
    }
}

proof fn every_file_section(sel: Seq<SelectedView>, contents: Seq<Seq<char>>, i: int)
    requires
        0 <= i < sel.len(),
        sel[i].included,
        contents.len() == sel.len(),
    ensures
        has(file_sections(sel, contents), file_section(sel[i], contents[i])),
    decreases sel.len(),
{
    file_section_of(sel, contents, i);
}

proof fn file_section_of(sel: Seq<SelectedView>, contents: Seq<Seq<char>>, i: int)
    requires
        0 <= i < sel.len() <= contents.len(),
        sel[i].included,
    ensures
        has(file_sections(sel, contents), file_section(sel[i], contents[i])),
    decreases sel.len(),
{
    let rest = sel.drop_last();
    let before = file_sections(rest, contents);
    let all = file_sections(sel, contents);
    let n = sel.len() - 1;
    let section = file_section(sel.last(), contents[n]);
    if i == n {
        assert(all =~= before + section + Seq::<char>::empty());
        within(before, section, Seq::empty(), all);
    } else {
        file_section_of(rest, contents, i);
        if sel.last().included {
            in_the_whole(Seq::empty(), before, section, file_section(rest[i], contents[i]));
            assert(all =~= Seq::<char>::empty() + before + section);
        }
    }
}

/// The part of a pack with the texts of the files.
spec fn files_part(req: PackRequest, sel: Seq<SelectedView>, contents: Seq<Seq<char>>) -> Seq<char> {
    if req.dry_run {
        Seq::empty()
    } else {
        "\n## Files\n"@ + file_sections(sel, contents)
    }
}

spec fn diff_part(req: PackRequest, diff: Option<Seq<char>>) -> Seq<char> {
    if req.include_diff && diff is Some {
        "\n## Diff\n\n```diff\n"@ + diff->0 + "\n```\n"@
    } else {
        Seq::empty()
    }
}

proof fn parts(
    name: Seq<char>,
    reasons: bool,
    git: GitInfo,
    req: PackRequest,
    sel: Seq<SelectedView>,
    symbols: Seq<SymbolView>,
    contents: Seq<Seq<char>>,
    diff: Option<Seq<char>>,
)
    ensures
        pack_markdown(name, reasons, git, req, sel, symbols, contents, diff) == heading_section(name, git, req) + selection_lines(sel, reasons)
            + "\n## Symbols\n\n"@ + symbol_lines(symbols) + files_part(req, sel, contents) + diff_part(req, diff),
{
    let summary = heading_section(name, git, req) + selection_lines(sel, reasons) + "\n## Symbols\n\n"@ + symbol_lines(
        symbols,
    );
    assert(pack_markdown(name, reasons, git, req, sel, symbols, contents, diff) =~= summary + files_part(req, sel, contents) + diff_part(req, diff));
}

/// What stands in the second part of three stands in the whole.
proof fn in_a_part(a: Seq<char>, p: Seq<char>, b: Seq<char>, x: Seq<char>, whole: Seq<char>)
    requires
        has(p, x),
        whole == a + p + b,
    ensures
        has(whole, x),
{
    in_the_whole(a, p, b, x);
}

proof fn selection_line_shows(f: SelectedView, reasons: bool)
    ensures
        has(selection_line(f, reasons), "- `"@ + f.path + "` (tier "@ + decimal(f.tier as nat)),
        reasons ==> has(selection_line(f, reasons), f.reason),
        !f.included ==> has(selection_line(f, reasons), ", trimmed"@),
{
    let none = Seq::<char>::empty();
    let line = selection_line(f, reasons);
    let start = "- `"@ + f.path + "` (tier "@ + decimal(f.tier as nat);
    let count = ", ~"@ + decimal(f.estimated_tokens as nat) + " tokens"@;
    let mark = if f.included {
        none
    } else {
        ", trimmed"@
    };
    let why = if reasons {
        ": "@ + f.reason
    } else {
        none
    };
    let end = count + mark + ")"@ + why + "\n"@;
    assert(line =~= none + start + end);
    within(none, start, end, line);
    if reasons {
        let front = start + count + mark + ")"@ + ": "@;
        assert(line =~= front + f.reason + "\n"@);
        within(front, f.reason, "\n"@, line);
    }
    if !f.included {
        let front = start + count;
        let back = ")"@ + why + "\n"@;
        assert(line =~= front + ", trimmed"@ + back);
        within(front, ", trimmed"@, back, line);
    }
}

/// A Markdown pack shows every selected file in its summary, with its reason where
/// reasons are wanted, and marks those that were trimmed.
pub proof fn markdown_shows_the_selection(
    name: Seq<char>,
    reasons: bool,
    git: GitInfo,
    req: PackRequest,
    sel: Seq<SelectedView>,
    symbols: Seq<SymbolView>,
    contents: Seq<Seq<char>>,
    diff: Option<Seq<char>>,
    i: int,
)
    requires
        0 <= i < sel.len(),
    ensures
        ({
            let pack = pack_markdown(name, reasons, git, req, sel, symbols, contents, diff);
            &&& has(pack, "- `"@ + sel[i].path + "` (tier "@ + decimal(sel[i].tier as nat))
            &&& reasons ==> has(pack, sel[i].reason)
            &&& !sel[i].included ==> has(pack, ", trimmed"@)
        }),
{
    let pack = pack_markdown(name, reasons, git, req, sel, symbols, contents, diff);
    let head = heading_section(name, git, req);
    let chosen = selection_lines(sel, reasons);
    let rest = "\n## Symbols\n\n"@ + symbol_lines(symbols) + files_part(req, sel, contents) + diff_part(req, diff);
    parts(name, reasons, git, req, sel, symbols, contents, diff);
    assert(pack =~= head + chosen + rest);
    every_selection_line(sel, reasons, i);
    let line = selection_line(sel[i], reasons);
    in_a_part(head, chosen, rest, line, pack);
    selection_line_shows(sel[i], reasons);
    shown_in(pack, line, "- `"@ + sel[i].path + "` (tier "@ + decimal(sel[i].tier as nat));
    if reasons {
        shown_in(pack, line, sel[i].reason);
    }
    if !sel[i].included {
        shown_in(pack, line, ", trimmed"@);
    }
}

/// A Markdown pack shows every symbol, and where it starts.
pub proof fn markdown_shows_the_symbols(
    name: Seq<char>,
    reasons: bool,
    git: GitInfo,
    req: PackRequest,
    sel: Seq<SelectedView>,
    symbols: Seq<SymbolView>,
    contents: Seq<Seq<char>>,
    diff: Option<Seq<char>>,
    k: int,
)
    requires
        0 <= k < symbols.len(),
    ensures
        has(pack_markdown(name, reasons, git, req, sel, symbols, contents, diff), symbols[k].full_name),
        has(
            pack_markdown(name, reasons, git, req, sel, symbols, contents, diff),
            symbols[k].file_path + ":"@ + decimal(symbols[k].start_line as nat),
        ),
{
    let pack = pack_markdown(name, reasons, git, req, sel, symbols, contents, diff);
    let front = heading_section(name, git, req) + selection_lines(sel, reasons) + "\n## Symbols\n\n"@;
    let found = symbol_lines(symbols);
    let rest = files_part(req, sel, contents) + diff_part(req, diff);
    parts(name, reasons, git, req, sel, symbols, contents, diff);
    assert(pack =~= front + found + rest);
    let s = symbols[k];
    every_symbol_line(symbols, k);
    let line = symbol_line(s);
    in_a_part(front, found, rest, line, pack);
    let place = s.file_path + ":"@ + decimal(s.start_line as nat);
    let a = "- `"@;
    let b = "` ("@ + s.kind.name() + ") "@ + place + "\n"@;
    assert(line =~= a + s.full_name + b);
    within(a, s.full_name, b, line);
    shown_in(pack, line, s.full_name);
    let c = "- `"@ + s.full_name + "` ("@ + s.kind.name() + ") "@;
    assert(line =~= c + place + "\n"@);
    within(c, place, "\n"@, line);
    shown_in(pack, line, place);
}

proof fn section_shows(f: SelectedView, text: Seq<char>)
    ensures
        has(file_section(f, text), text),
        has(file_section(f, text), "### "@ + f.path),
{
    let section = file_section(f, text);
    let tail = "\n\n```"@ + language_of(f.path).fence_name() + "\n"@;
    let open = "\n### "@ + f.path + tail;
    assert(section =~= open + text + "\n```\n"@);
    within(open, text, "\n```\n"@, section);
    reveal_strlit("\n### ");
    reveal_strlit("### ");
    let title = "### "@ + f.path;
    let rest = tail + text + "\n```\n"@;
    assert("\n### "@ =~= seq!['\n'] + "### "@);
    assert(section =~= seq!['\n'] + title + rest);
    within(seq!['\n'], title, rest, section);
}

/// A Markdown pack that is no dry run shows the whole text of every included file,
/// under its path.
pub proof fn markdown_shows_the_files(
    name: Seq<char>,
    reasons: bool,
    git: GitInfo,
    req: PackRequest,
    sel: Seq<SelectedView>,
    symbols: Seq<SymbolView>,
    contents: Seq<Seq<char>>,
    diff: Option<Seq<char>>,
    i: int,
)
    requires
        contents.len() == sel.len(),
        0 <= i < sel.len(),
        sel[i].included,
        !req.dry_run,
    ensures
        has(pack_markdown(name, reasons, git, req, sel, symbols, contents, diff), contents[i]),
        has(pack_markdown(name, reasons, git, req, sel, symbols, contents, diff), "### "@ + sel[i].path),
{
    let pack = pack_markdown(name, reasons, git, req, sel, symbols, contents, diff);
    let front = heading_section(name, git, req) + selection_lines(sel, reasons) + "\n## Symbols\n\n"@ + symbol_lines(
        symbols,
    ) + "\n## Files\n"@;
    let sections = file_sections(sel, contents);
    let rest = diff_part(req, diff);
    parts(name, reasons, git, req, sel, symbols, contents, diff);
    assert(pack =~= front + sections + rest);
    every_file_section(sel, contents, i);
    let section = file_section(sel[i], contents[i]);
    in_a_part(front, sections, rest, section, pack);
    section_shows(sel[i], contents[i]);
    shown_in(pack, section, contents[i]);
    shown_in(pack, section, "### "@ + sel[i].path);
}

/// A Markdown pack names what was asked for and where, and ends with the diff where
/// it was asked for.
pub proof fn markdown_shows_the_rest(
    name: Seq<char>,
    reasons: bool,
    git: GitInfo,
    req: PackRequest,
    sel: Seq<SelectedView>,
    symbols: Seq<SymbolView>,
    contents: Seq<Seq<char>>,
    diff: Option<Seq<char>>,
)
    ensures
        ({
            let pack = pack_markdown(name, reasons, git, req, sel, symbols, contents, diff);
            &&& req.include_diff ==> (diff matches Some(d) ==> has(pack, d))
            &&& has(pack, req.mode.asked())
            &&& name.len() > 0 ==> has(pack, name)
            &&& opt_view(git.branch) matches Some(b) ==> has(pack, b)
            &&& opt_view(git.commit) matches Some(c) ==> has(pack, c)
        }),
{
    let pack = pack_markdown(name, reasons, git, req, sel, symbols, contents, diff);
    let none = Seq::<char>::empty();
    let head = heading_section(name, git, req);
    let middle = selection_lines(sel, reasons) + "\n## Symbols\n\n"@ + symbol_lines(symbols) + files_part(
        req,
        sel,
        contents,
    );
    let rest = middle + diff_part(req, diff);
    parts(name, reasons, git, req, sel, symbols, contents, diff);
    assert(pack =~= none + head + rest);
    heading_shows(name, git, req);
    in_a_part(none, head, rest, req.mode.asked(), pack);
    if name.len() > 0 {
        in_a_part(none, head, rest, name, pack);
    }
    if let Some(b) = opt_view(git.branch) {
        in_a_part(none, head, rest, b, pack);
    }
    if let Some(c) = opt_view(git.commit) {
        in_a_part(none, head, rest, c, pack);
    }
    if req.include_diff && diff is Some {
        let front = head + middle + "\n## Diff\n\n```diff\n"@;
        assert(pack =~= front + diff->0 + "\n```\n"@);
        within(front, diff->0, "\n```\n"@, pack);
    }
}

proof fn shown_in(whole: Seq<char>, part: Seq<char>, x: Seq<char>)
    requires
        has(whole, part),
        has(part, x),
    ensures
        has(whole, x),
{
    let i = choose|i: int| occurs_at(whole, part, i);
    let a = whole.take(i);
    let b = whole.skip(i + part.len());
    assert(whole =~= a + part + b) by {
        assert(whole.subrange(i, i + part.len()) =~= part);
    }
    in_the_whole(a, part, b, x);
}

proof fn heading_shows(name: Seq<char>, git: GitInfo, req: PackRequest)
    ensures
        has(heading_section(name, git, req), req.mode.asked()),
        name.len() > 0 ==> has(heading_section(name, git, req), name),
        opt_view(git.branch) matches Some(b) ==> has(heading_section(name, git, req), b),
        opt_view(git.commit) matches Some(c) ==> has(heading_section(name, git, req), c),
{
    let all = heading_section(name, git, req);
    let shown_name = if name.len() == 0 {
        "-"@
    } else {
        name
    };
    let branch = crate::pack::markdown::or_dash(opt_view(git.branch));
    let commit = crate::pack::markdown::or_dash(opt_view(git.commit));
    let a = "# SimCube Synapse Context Pack\n\n- Mode: "@ + req.mode.label_text() + "\n- Query: "@;
    let b = a + req.mode.asked() + "\n- Repository: "@;
    let c = b + shown_name + "\n- Branch: "@;
    let d = c + branch + "\n- Commit: "@;
    let e = "\n\n## Selection Summary\n\n"@;
    let tail_c = "\n- Commit: "@ + commit + e;
    let tail_b = "\n- Branch: "@ + branch + tail_c;
    let tail_a = "\n- Repository: "@ + shown_name + tail_b;
    assert(all =~= a + req.mode.asked() + tail_a);
    within(a, req.mode.asked(), tail_a, all);
    assert(all =~= b + shown_name + tail_b);
    within(b, shown_name, tail_b, all);
    assert(all =~= c + branch + tail_c);
    within(c, branch, tail_c, all);
    assert(all =~= d + commit + e);
    within(d, commit, e, all);
}

/// The text of a file that was trimmed makes no difference to a Markdown pack.
pub proof fn trimmed_files_are_not_shown(sel: Seq<SelectedView>, a: Seq<Seq<char>>, b: Seq<Seq<char>>)
    requires
        sel.len() <= a.len(),
        sel.len() <= b.len(),
        forall|i: int| 0 <= i < sel.len() && (#[trigger] sel[i]).included ==> a[i] == b[i],
    ensures
        file_sections(sel, a) == file_sections(sel, b),
        files_json(sel, a) == files_json(sel, b),
    decreases sel.len(),
{
    if sel.len() > 0 {
        let rest = sel.drop_last();
        assert(sel[sel.len() - 1] == sel.last());
        assert forall|i: int| 0 <= i < rest.len() && (#[trigger] rest[i]).included implies a[i] == b[i] by {
            assert(rest[i] == sel[i]);
        }
        trimmed_files_are_not_shown(rest, a, b);
    }
}

// --- JSON -----------------------------------------------------------------------------------------
/// A JSON pack tells of every selected file, symbol and included file what its keys
/// say, and of the request and the repository likewise.
pub proof fn json_tells_everything(
    f: SelectedView,
    s: SymbolView,
    contents: Seq<char>,
    name: Seq<char>,
    git: GitInfo,
    req: PackRequest,
)
    ensures
        selected_entries(f).contains(item("path"@, JsonView::Text(f.path))),
        selected_entries(f).contains(item("reason"@, JsonView::Text(f.reason))),
        selected_entries(f).contains(item("tier"@, JsonView::Number(decimal(f.tier as nat)))),
        selected_entries(f).contains(item("estimatedTokens"@, JsonView::Number(decimal(f.estimated_tokens as nat)))),
        selected_entries(f).contains(item("included"@, JsonView::Bool(f.included))),
        symbol_entries(s).contains(item("name"@, JsonView::Text(s.name))),
        symbol_entries(s).contains(item("fullName"@, JsonView::Text(s.full_name))),
        symbol_entries(s).contains(item("kind"@, JsonView::Text(s.kind.name()))),
        symbol_entries(s).contains(item("language"@, JsonView::Text(s.language.name()))),
        symbol_entries(s).contains(item("file"@, JsonView::Text(s.file_path))),
        symbol_entries(s).contains(item("startLine"@, JsonView::Number(decimal(s.start_line as nat)))),
        symbol_entries(s).contains(item("endLine"@, JsonView::Number(decimal(s.end_line as nat)))),
        symbol_entries(s).contains(item("exported"@, JsonView::Bool(s.exported))),
        file_entries(f, contents).contains(item("path"@, JsonView::Text(f.path))),
        file_entries(f, contents).contains(item("reason"@, JsonView::Text(f.reason))),
        file_entries(f, contents).contains(item("language"@, JsonView::Text(language_of(f.path).name()))),
        file_entries(f, contents).contains(item("contents"@, JsonView::Text(contents))),
        request_entries(req).contains(item("mode"@, JsonView::Text(req.mode.label_text()))),
        request_entries(req).contains(item("query"@, JsonView::Text(req.mode.asked()))),
        request_entries(req).contains(item("budget"@, JsonView::Number(decimal(req.budget as nat)))),
        request_entries(req).contains(item("dryRun"@, JsonView::Bool(req.dry_run))),
        repository_entries(name, git, req).contains(item("name"@, text_unless_empty(name))),
        repository_entries(name, git, req).contains(item("branch"@, text_or_null(opt_view(git.branch)))),
        repository_entries(name, git, req).contains(item("commit"@, text_or_null(opt_view(git.commit)))),
        repository_entries(name, git, req).contains(item("changedFilesIncluded"@, JsonView::Bool(req.mode is Changed))),
{
    let a = selected_entries(f);
    assert(a[0] == item("path"@, JsonView::Text(f.path)));
    assert(a[1] == item("reason"@, JsonView::Text(f.reason)));
    assert(a[2] == item("tier"@, JsonView::Number(decimal(f.tier as nat))));
    assert(a[3] == item("estimatedTokens"@, JsonView::Number(decimal(f.estimated_tokens as nat))));
    assert(a[4] == item("included"@, JsonView::Bool(f.included)));
    let b = symbol_entries(s);
    assert(b[0] == item("name"@, JsonView::Text(s.name)));
    assert(b[1] == item("fullName"@, JsonView::Text(s.full_name)));
    assert(b[2] == item("kind"@, JsonView::Text(s.kind.name())));
    assert(b[3] == item("language"@, JsonView::Text(s.language.name())));
    assert(b[4] == item("file"@, JsonView::Text(s.file_path)));
    assert(b[5] == item("startLine"@, JsonView::Number(decimal(s.start_line as nat))));
    assert(b[6] == item("endLine"@, JsonView::Number(decimal(s.end_line as nat))));
    assert(b[7] == item("exported"@, JsonView::Bool(s.exported)));
    let c = file_entries(f, contents);
    assert(c[0] == item("path"@, JsonView::Text(f.path)));
    assert(c[1] == item("reason"@, JsonView::Text(f.reason)));
    assert(c[2] == item("language"@, JsonView::Text(language_of(f.path).name())));
    assert(c[3] == item("contents"@, JsonView::Text(contents)));
    let d = request_entries(req);
    assert(d[0] == item("mode"@, JsonView::Text(req.mode.label_text())));
    assert(d[1] == item("query"@, JsonView::Text(req.mode.asked())));
    assert(d[2] == item("budget"@, JsonView::Number(decimal(req.budget as nat))));
    assert(d[3] == item("dryRun"@, JsonView::Bool(req.dry_run)));
    let e = repository_entries(name, git, req);
    assert(e[0] == item("name"@, text_unless_empty(name)));
    assert(e[1] == item("branch"@, text_or_null(opt_view(git.branch))));
    assert(e[2] == item("commit"@, text_or_null(opt_view(git.commit))));
    assert(e[3] == item("changedFilesIncluded"@, JsonView::Bool(req.mode is Changed)));
}

/// A JSON pack lists every selected file and every symbol, and, unless it is a dry
/// run, exactly the included files with their texts; the diff is there where it was
/// asked for.
pub proof fn json_lists_everything(
    name: Seq<char>,
    git: GitInfo,
    req: PackRequest,
    sel: Seq<SelectedView>,
    symbols: Seq<SymbolView>,
    contents: Seq<Seq<char>>,
    diff: Option<Seq<char>>,
)
    ensures
        ({
            let all = pack_entries(name, git, req, sel, symbols, contents, diff);
            &&& all.contains(item("tool"@, JsonView::Text("synapse"@)))
            &&& all.contains(item("request"@, request_json(req)))
            &&& all.contains(item("repository"@, repository_json(name, git, req)))
            &&& all.contains(item("selection"@, JsonView::List(Seq::new(sel.len(), |i: int| selected_json(sel[i])))))
            &&& all.contains(item("symbols"@, JsonView::List(Seq::new(symbols.len(), |i: int| symbol_json(symbols[i])))))
            &&& req.dry_run ==> all.contains(item("files"@, JsonView::List(Seq::empty())))
            &&& !req.dry_run ==> all.contains(item("files"@, JsonView::List(files_json(sel, contents))))
            &&& req.include_diff ==> (diff matches Some(d) ==> all.contains(item("diff"@, JsonView::Text(d))))
            &&& !req.include_diff ==> all.len() == 6
        }),
{
    let all = pack_entries(name, git, req, sel, symbols, contents, diff);
    assert(all[0] == item("tool"@, JsonView::Text("synapse"@)));
    assert(all[1] == item("request"@, request_json(req)));
    assert(all[2] == item("repository"@, repository_json(name, git, req)));
    assert(sel.map_values(|f: SelectedView| selected_json(f)) =~= Seq::new(sel.len(), |i: int| selected_json(sel[i])));
    assert(symbols.map_values(|s: SymbolView| symbol_json(s)) =~= Seq::new(
        symbols.len(),
        |i: int| symbol_json(symbols[i]),
    ));
    assert(all[3] == item("selection"@, JsonView::List(Seq::new(sel.len(), |i: int| selected_json(sel[i])))));
    assert(all[4] == item("symbols"@, JsonView::List(Seq::new(symbols.len(), |i: int| symbol_json(symbols[i])))));
    if req.dry_run {
        assert(all[5] == item("files"@, JsonView::List(Seq::empty())));
    } else {
        assert(all[5] == item("files"@, JsonView::List(files_json(sel, contents))));
    }
    if req.include_diff {
        if let Some(d) = diff {
            assert(all[6] == item("diff"@, JsonView::Text(d)));
        }
    }
}

/// The listed files are the included ones, each with its own text.
pub proof fn included_files_are_listed(sel: Seq<SelectedView>, contents: Seq<Seq<char>>, i: int)
    requires
        sel.len() <= contents.len(),
        0 <= i < sel.len(),
    ensures
        sel[i].included ==> files_json(sel, contents).contains(file_json(sel[i], contents[i])),
        files_json(sel, contents).len() == crate::lists::keep(sel, |f: SelectedView| f.included).len(),
    decreases sel.len(),
{
    let rest = sel.drop_last();
    let before = files_json(rest, contents);
    let all = files_json(sel, contents);
    if rest.len() > 0 {
        included_files_are_listed(
            rest,
            contents,
            if i < rest.len() {
                i
            } else {
                0
            },
        );
    } else {
        assert(before.len() == 0);
        assert(crate::lists::keep(rest, |f: SelectedView| f.included).len() == 0);
    }
    if sel[i].included {
        if i < rest.len() {
            assert(rest[i] == sel[i]);
            let x = file_json(sel[i], contents[i]);
            assert(all[before.index_of(x)] == x);
        } else {
            assert(all[all.len() - 1] == file_json(sel[i], contents[i]));
        }
    }
}

// --- symbols of a pack ----------------------------------------------------------------------------
/// The symbols of a pack are exactly those of its included files.
pub proof fn symbols_are_those_of_the_included_files<S: GraphStore>(
    h: Seq<StoreWrite>,
    sel: Seq<SelectedView>,
    s: SymbolView,
)
    ensures
        included_symbols::<S>(h, sel).contains(s) <==> exists|f: SelectedView| #[trigger]
            sel.contains(f) && f.included && S::symbols_matching_in(h, file_query(f.path)).contains(s),
{
    let g = |f: SelectedView| symbols_of_selected::<S>(h, f);
    let all = flat(sel, g);
    stable_sort_keeps(all, file_line_order());
    flat_members(sel, g, s);
    if makes(sel, g, s) {
        let f = choose|f: SelectedView| #[trigger] sel.contains(f) && g(f).contains(s);
        assert(sel.contains(f) && f.included);
    }
    if exists|f: SelectedView| #[trigger]
        sel.contains(f) && f.included && S::symbols_matching_in(h, file_query(f.path)).contains(s) {
        let f = choose|f: SelectedView| #[trigger]
            sel.contains(f) && f.included && S::symbols_matching_in(h, file_query(f.path)).contains(s);
        assert(sel.contains(f) && g(f).contains(s));
    }
}

} // verus!
