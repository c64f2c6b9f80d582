//! What one candidate file contributes to the index.

use crate::config::{enabled, language_enabled, LanguageToggles};
use crate::errors::SynapseError;
use crate::graph::model::{FileView, IndexedFile, IndexedSymbol, Language, SymbolView};
use crate::hashing::{blake3_hex, content_hash};
use crate::indexer::dotnet::msbuild_facts;
use crate::indexer::facts::{Reference, ReferenceView, Supertype, SupertypeView};
use crate::indexer::ids::{file_id, file_id_of};
use crate::indexer::languages::{detect, language_of};
use crate::indexer::manifests::{
    csproj_manifest, node_manifest, parse_csproj_manifest, parse_package_json_manifest, CentralEntryView, CentralVersions,
    ManifestView, ManifestWrite,
};
use crate::indexer::node::package_facts;
use crate::indexer::tree_sitter::extract::{extract, ordered_symbols, symbols_in};
use crate::indexer::tree_sitter::imports::{extract_imports, imports_in};
use crate::indexer::tree_sitter::references::{extract_references, references_in};
use crate::indexer::tree_sitter::supertypes::{extract_supertypes, supertypes_in};
use crate::indexer::xml::xml_events;
use crate::json::parsed_json;
use crate::lists::{find_first, first, sorted_set};
use crate::paths::{join_path, joined};
use crate::text::{
    among, cat, decode_lossy, decode_utf8, ends_with, lossy_text, opt_view, same, views,
};
use vstd::prelude::*;

verus! {

/// Inputs shared by every [`parse_file`] call, gathered once before parsing.
pub struct ParseContext {
    /// The root of the repository.
    pub root: String,
    /// The languages whose symbols are extracted.
    pub languages: LanguageToggles,
    /// Re-index every file, whatever its hash.
    pub force: bool,
    /// Restrict to the files in `changed`.
    pub changed_only: bool,
    pub changed: Vec<String>,
    /// The files that the graph knows.
    pub existing: Vec<IndexedFile>,
    /// The files that git tracks.
    pub in_git: Vec<String>,
    pub central: CentralVersions,
    /// The time to stamp files with.
    pub now: String,
}

/// What `ParseContext` says, as mathematical values.
pub struct ParseView {
    pub root: Seq<char>,
    pub languages: LanguageToggles,
    pub force: bool,
    pub changed_only: bool,
    pub changed: Seq<Seq<char>>,
    pub existing: Seq<FileView>,
    pub in_git: Seq<Seq<char>>,
    pub central: Seq<CentralEntryView>,
    pub now: Seq<char>,
}

impl View for ParseContext {
    type V = ParseView;

    open spec fn view(&self) -> ParseView {
        ParseView {
            root: self.root@,
            languages: self.languages,
            force: self.force,
            changed_only: self.changed_only,
            changed: views(self.changed@),
            existing: views(self.existing@),
            in_git: views(self.in_git@),
            central: views(self.central.entries@),
            now: self.now@,
        }
    }
}

/// Parsed facts for one changed file.
pub struct IndexedFileWork {
    pub file: IndexedFile,
    /// Extracted symbols (empty for unsupported/disabled languages).
    pub symbols: Vec<IndexedSymbol>,
    /// Imported packages or namespaces, for later package resolution.
    pub imports: Vec<String>,
    /// Supertype relationships discovered in this file.
    pub supers: Vec<Supertype>,
    /// Usage references discovered in this file.
    pub references: Vec<Reference>,
    /// The parsed manifest, when this file is one.
    pub manifest: Option<ManifestWrite>,
}

pub struct WorkView {
    pub file: FileView,
    pub symbols: Seq<SymbolView>,
    pub imports: Seq<Seq<char>>,
    pub supers: Seq<SupertypeView>,
    pub references: Seq<ReferenceView>,
    pub manifest: Option<ManifestView>,
}

impl View for IndexedFileWork {
    type V = WorkView;

    open spec fn view(&self) -> WorkView {
        WorkView {
            file: self.file@,
            symbols: views(self.symbols@),
            imports: views(self.imports@),
            supers: views(self.supers@),
            references: views(self.references@),
            manifest: opt_view(self.manifest),
        }
    }
}

/// The result of parsing one candidate file — everything needed to write it to
/// the store, with no store access.
pub enum FileWork {
    /// The file was filtered (`--changed`) or is unchanged — counted as "skipped
    /// unchanged" in the outcome.
    SkipCounted,
    /// The file was unreadable — silently skipped.
    SkipUnreadable,
    /// A changed/new file to (re)index.
    Indexed(IndexedFileWork),
}

pub enum FileWorkView {
    SkipCounted,
    SkipUnreadable,
    Indexed(WorkView),
}

impl View for FileWork {
    type V = FileWorkView;

    open spec fn view(&self) -> FileWorkView {
        match self {
            FileWork::SkipCounted => FileWorkView::SkipCounted,
            FileWork::SkipUnreadable => FileWorkView::SkipUnreadable,
            FileWork::Indexed(w) => FileWorkView::Indexed(w@),
        }
    }
}

/// The file is left out because only changed files are asked for.
pub open spec fn filtered_out(ctx: ParseView, rel: Seq<char>) -> bool {
    ctx.changed_only && !ctx.changed.contains(rel)
}

/// Whether a candidate is wanted at all; only then is it read.
pub fn wants(ctx: &ParseContext, rel: &str) -> (r: bool)
    ensures
        r == !filtered_out(ctx@, rel@),
{
    !(ctx.changed_only && !among(&ctx.changed, rel))
}

/// The graph knows the file with the same content.
pub open spec fn unchanged(ctx: ParseView, rel: Seq<char>, bytes: Seq<u8>) -> bool {
    !ctx.force && (first(ctx.existing, |f: FileView| f.path == rel) matches Some(prev) && prev.hash
        == blake3_hex(bytes))
}

/// The file node of a candidate.
pub open spec fn file_node(ctx: ParseView, rel: Seq<char>, bytes: Seq<u8>) -> FileView {
    FileView {
        id: file_id_of(rel),
        path: rel,
        language: language_of(rel),
        hash: blake3_hex(bytes),
        size_bytes: bytes.len() as u64,
        git_tracked: ctx.in_git.contains(rel),
        last_indexed_at: ctx.now,
    }
}

/// Symbols are extracted from this file.
pub open spec fn extracted(ctx: ParseView, rel: Seq<char>) -> bool {
    language_of(rel) != Language::Other && enabled(ctx.languages, language_of(rel))
}

/// A language whose imports are resolved to packages.
pub open spec fn has_imports(lang: Language) -> bool {
    lang == Language::JavaScript || lang == Language::TypeScript || lang == Language::CSharp
}

/// What a file contributes besides its manifest.
pub open spec fn file_facts(
    ctx: ParseView,
    rel: Seq<char>,
    bytes: Seq<u8>,
    manifest: Option<ManifestView>,
) -> WorkView {
    let lang = language_of(rel);
    let text = lossy_text(bytes);
    let on = extracted(ctx, rel);
    WorkView {
        file: file_node(ctx, rel, bytes),
        symbols: if on {
            ordered_symbols(symbols_in(rel, lang, text))
        } else {
            Seq::empty()
        },
        imports: if on && has_imports(lang) {
            sorted_set(imports_in(rel, lang, text))
        } else {
            Seq::empty()
        },
        supers: if on {
            supertypes_in(rel, lang, text)
        } else {
            Seq::empty()
        },
        references: if on {
            references_in(rel, lang, text)
        } else {
            Seq::empty()
        },
        manifest,
    }
}

/// The manifest that a file holds, or why it cannot be read.
pub open spec fn manifest_in(ctx: ParseView, rel: Seq<char>, bytes: Seq<u8>) -> Result<
    Option<ManifestView>,
    Seq<char>,
> {
    let text = vstd::utf8::decode_utf8(bytes);
    if !".csproj"@.is_suffix_of(rel) && !"package.json"@.is_suffix_of(rel) {
        Ok(None)
    } else if !vstd::utf8::valid_utf8(bytes) {
        Err("reading "@ + join_path(ctx.root, rel))
    } else if ".csproj"@.is_suffix_of(rel) {
        if xml_events(text).last() is Failed {
            Err("failed reading MSBuild XML"@)
        } else {
            Ok(
                Some(
                    csproj_manifest(
                        rel,
                        msbuild_facts(xml_events(text).drop_last()),
                        ctx.central,
                    ),
                ),
            )
        }
    } else {
        match parsed_json(text) {
            Some(doc) => Ok(Some(node_manifest(rel, package_facts(doc)))),
            None => Err("failed to parse package.json"@),
        }
    }
}

/// What a candidate contributes (`bytes`: its content, where it could be read),
/// or why its manifest cannot be read.
pub open spec fn file_work(ctx: ParseView, rel: Seq<char>, bytes: Option<Seq<u8>>) -> Result<
    FileWorkView,
    Seq<char>,
> {
    if filtered_out(ctx, rel) {
        Ok(FileWorkView::SkipCounted)
    } else {
        match bytes {
            None => Ok(FileWorkView::SkipUnreadable),
            Some(b) => if unchanged(ctx, rel, b) {
                Ok(FileWorkView::SkipCounted)
            } else {
                match manifest_in(ctx, rel, b) {
                    Ok(m) => Ok(FileWorkView::Indexed(file_facts(ctx, rel, b, m))),
                    Err(e) => Err(e),
                }
            },
        }
    }
}

/// A result says what the specification says: the same value, or an error with
/// that text.
pub open spec fn says<T: View>(r: Result<T, SynapseError>, want: Result<T::V, Seq<char>>) -> bool {
    match (r, want) {
        (Ok(v), Ok(w)) => v@ == w,
        (Err(e), Err(m)) => e is Invalid && e.text() == m,
        _ => false,
    }
}

fn read_manifest(ctx: &ParseContext, rel: &str, bytes: &Vec<u8>) -> (r: Result<Option<ManifestWrite>, SynapseError>)
    ensures
        r is Ok == manifest_in(ctx@, rel@, bytes@) is Ok,
        r matches Ok(m) ==> manifest_in(ctx@, rel@, bytes@) == Ok::<Option<ManifestView>, Seq<char>>(opt_view(m)),
        r matches Err(e) ==> e is Invalid && manifest_in(ctx@, rel@, bytes@) == Err::<
            Option<ManifestView>,
            Seq<char>,
        >(e.text()),
{
    let csproj = ends_with(rel, ".csproj");
    if !csproj && !ends_with(rel, "package.json") {
        return Ok(None);
    }
    let text = match decode_utf8(bytes) {
        Some(t) => t,
        None => {
            let abs = joined(ctx.root.as_str(), rel);
            return Err(SynapseError::Invalid(cat("reading ", abs.as_str())));
        },
    };
    let parsed = if csproj {
        parse_csproj_manifest(rel, text.as_str(), &ctx.central)
    } else {
        parse_package_json_manifest(rel, text.as_str())
    };
    match parsed {
        Ok(m) => Ok(Some(m)),
        Err(e) => Err(e),
    }
}

/// Parse a single candidate file into a [`FileWork`]: hash + skip-decision +
/// language detection + extraction + manifest parse. `bytes` is its content,
/// where it could be read. No store access — safe to call from any thread.
///
/// A manifest that cannot be parsed is an error, and aborts the run before
/// anything is written.
pub fn parse_file(ctx: &ParseContext, rel: &str, bytes: &Option<Vec<u8>>) -> (r: Result<FileWork, SynapseError>)
    ensures
        says(
            r,
            file_work(
                ctx@,
                rel@,
                match *bytes {
                    Some(b) => Some(b@),
                    None => None,
                },
            ),
        ),
{
    if !wants(ctx, rel) {
        return Ok(FileWork::SkipCounted);
    }
    let bytes = match bytes {
        Some(b) => b,
        None => {
            return Ok(FileWork::SkipUnreadable);
        },
    };
    let hash = content_hash(bytes);
    if !ctx.force {
        let is_it = |f: &IndexedFile| -> (r: bool)
            ensures
                r == (f@.path == rel@),
            {
                same(f.path.as_str(), rel)
            };
        match find_first(&ctx.existing, is_it, Ghost(|f: FileView| f.path == rel@)) {
            Some(prev) => {
                if same(prev.hash.as_str(), hash.as_str()) {
                    return Ok(FileWork::SkipCounted);
                }
            },
            None => {},
        }
    }
    let language = detect(rel);
    let file = IndexedFile {
        id: file_id(rel),
        path: rel.to_owned(),
        language,
        hash,
        size_bytes: bytes.len() as u64,
        git_tracked: among(&ctx.in_git, rel),
        last_indexed_at: ctx.now.clone(),
    };
    let mut symbols: Vec<IndexedSymbol> = Vec::new();
    let mut imports: Vec<String> = Vec::new();
    let mut supers: Vec<Supertype> = Vec::new();
    let mut references: Vec<Reference> = Vec::new();
    assert(views(symbols@) =~= Seq::<SymbolView>::empty());
    assert(views(imports@) =~= Seq::<Seq<char>>::empty());
    assert(views(supers@) =~= Seq::<SupertypeView>::empty());
    assert(views(references@) =~= Seq::<ReferenceView>::empty());
    if language != Language::Other && language_enabled(&ctx.languages, language) {
        let text = decode_lossy(bytes);
        let text = text.as_str();
        symbols = extract(rel, language, text);
        if language == Language::JavaScript || language == Language::TypeScript || language == Language::CSharp {
            imports = extract_imports(rel, language, text);
        }
        supers = extract_supertypes(rel, language, text);
        references = extract_references(rel, language, text);
    }
    match read_manifest(ctx, rel, bytes) {
        Ok(manifest) => Ok(
            FileWork::Indexed(IndexedFileWork { file, symbols, imports, supers, references, manifest }),
        ),
        Err(e) => Err(e),
    }
}

} // verus!
