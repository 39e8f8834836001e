//! Rendering: joins finalized module sources into output assets — the
//! registry-driven application chunk, and the self-contained hot-patch
//! script.

use vstd::prelude::*;

use crate::diagnostics::BuildDiagnostic;
use crate::finalizer::finalize_module_isolating;
use crate::hmr_loader::HmrModuleLoaderOutput;
use crate::module::{AstStmt, Module, StmtPart};
use crate::options::{NormalizedBundlerOptions, SourceMapType};

verus! {

/// What serde_json renders a string as: its JSON string literal.
pub uninterp spec fn json_string_of(s: Seq<char>) -> Seq<char>;

/// Relies on serde_json::to_string: a string slice serializes to its
/// double-quoted JSON string literal, and serialization of a string
/// cannot fail.
#[verifier::external_body]
fn json_encode_string_raw(s: &str) -> (r: Option<String>)
    ensures
        r is Some,
        r matches Some(out) ==> out@ == json_string_of(s@) && out@.len() >= 2,
{
    serde_json::to_string(s).ok()
}

/// Encodes a module identity as a JSON string literal.
pub fn json_encode_string(s: &str) -> (r: String)
    ensures
        r@ == json_string_of(s@),
{
    match json_encode_string_raw(s) {
        Some(out) => out,
        None => {
            proof {
                assert(false);
            }
            String::new()
        },
    }
}

/// An emitted file: its name and its contents.
#[derive(Debug)]
pub struct OutputAsset {
    pub filename: String,
    pub source: String,
}

/// What a build hands back on success: assets, warnings, and the
/// files a watcher should follow.
#[derive(Debug)]
pub struct BundleOutput {
    pub assets: Vec<OutputAsset>,
    pub warnings: Vec<BuildDiagnostic>,
    pub watch_files: Vec<String>,
}

/// One rendered sourcemap beside its chunk, already serialized by its
/// producer: the JSON body and the equivalent data URL.
pub struct RenderedSourcemap {
    pub json: String,
    pub data_url: String,
}

/// Applies the sourcemap option to a finished chunk: `File` emits the
/// map as an asset of its own named after the chunk and points the
/// chunk at it, `Inline` embeds the map's data URL in the chunk, and
/// `Hidden` (or no option, or no map) leaves the chunk untouched and
/// emits nothing.
pub fn attach_sourcemap(
    sourcemap: &Option<SourceMapType>,
    filename: &String,
    content: String,
    map: Option<&RenderedSourcemap>,
) -> (r: (String, Option<OutputAsset>))
    ensures
        (map is Some && *sourcemap == Some(SourceMapType::File)) ==> {
            &&& r.0@ == content@ + "\n//# sourceMappingURL="@ + filename@ + ".map"@
            &&& r.1 matches Some(a) && a.filename@ == filename@ + ".map"@ && a.source@
                == map->Some_0.json@
        },
        (map is Some && *sourcemap == Some(SourceMapType::Inline)) ==> {
            &&& r.0@ == content@ + "\n//# sourceMappingURL="@ + map->Some_0.data_url@
            &&& r.1 is None
        },
        (map is None || *sourcemap is None || *sourcemap == Some(SourceMapType::Hidden)) ==> (r.0@
            == content@ && r.1 is None),
{
    match (map, sourcemap) {
        (Some(m), Some(SourceMapType::File)) => {
            let mut map_filename = filename.clone();
            map_filename.append(".map");
            let asset = OutputAsset { filename: map_filename, source: m.json.clone() };
            let mut out = content;
            out.append("\n//# sourceMappingURL=");
            out.append(asset.filename.as_str());
            proof {
                assert(out@ =~= content@ + "\n//# sourceMappingURL="@ + filename@ + ".map"@);
            }
            (out, Some(asset))
        },
        (Some(m), Some(SourceMapType::Inline)) => {
            let mut out = content;
            out.append("\n//# sourceMappingURL=");
            out.append(m.data_url.as_str());
            proof {
                assert(out@ =~= content@ + "\n//# sourceMappingURL="@ + m.data_url@);
            }
            (out, None)
        },
        _ => (content, None),
    }
}

/// Joins source fragments in order, one newline after each.
pub struct SourceJoiner {
    pub parts: Vec<String>,
}

/// The views of the joined fragments.
pub open spec fn spec_part_views(parts: Seq<String>) -> Seq<Seq<char>> {
    Seq::new(parts.len(), |i: int| parts[i]@)
}

/// The text of the first `n` fragments, each followed by a newline.
pub open spec fn spec_joined(parts: Seq<Seq<char>>, n: int) -> Seq<char>
    decreases n,
{
    if n <= 0 {
        Seq::empty()
    } else {
        spec_joined(parts, n - 1) + parts[n - 1] + seq!['\n']
    }
}

/// The joined text starts with the first fragment and its newline.
pub proof fn lemma_joined_prefix(parts: Seq<Seq<char>>, n: int)
    requires
        n >= 1,
    ensures
        spec_joined(parts, n).len() >= parts[0].len() + 1,
        spec_joined(parts, n).subrange(0, parts[0].len() as int) == parts[0],
    decreases n,
{
    if n == 1 {
        assert(spec_joined(parts, 0) =~= Seq::<char>::empty());
        assert(spec_joined(parts, 1) =~= parts[0] + seq!['\n']);
        assert(spec_joined(parts, 1).subrange(0, parts[0].len() as int) =~= parts[0]);
    } else {
        lemma_joined_prefix(parts, n - 1);
        assert(spec_joined(parts, n) == spec_joined(parts, n - 1) + parts[n - 1] + seq!['\n']);
        assert(spec_joined(parts, n).subrange(0, parts[0].len() as int) =~= spec_joined(
            parts,
            n - 1,
        ).subrange(0, parts[0].len() as int));
    }
}

/// The joined text ends with the last fragment and its newline.
pub proof fn lemma_joined_suffix(parts: Seq<Seq<char>>, n: int)
    requires
        n >= 1,
    ensures
        spec_joined(parts, n).len() >= parts[n - 1].len() + 1,
        spec_joined(parts, n).subrange(
            spec_joined(parts, n).len() - parts[n - 1].len() - 1,
            spec_joined(parts, n).len() as int,
        ) == parts[n - 1] + seq!['\n'],
{
    assert(spec_joined(parts, n) == spec_joined(parts, n - 1) + parts[n - 1] + seq!['\n']);
    assert(spec_joined(parts, n).subrange(
        spec_joined(parts, n).len() - parts[n - 1].len() - 1,
        spec_joined(parts, n).len() as int,
    ) =~= parts[n - 1] + seq!['\n']);
}

impl SourceJoiner {
    /// An empty joiner.
    pub fn new() -> (r: SourceJoiner)
        ensures
            r.parts@.len() == 0,
    {
        SourceJoiner { parts: Vec::new() }
    }

    /// Appends one fragment.
    pub fn append_source(&mut self, s: String)
        ensures
            final(self).parts@ == old(self).parts@.push(s),
    {
        self.parts.push(s);
    }

    /// Joins all fragments into the final text.
    pub fn join(&self) -> (r: String)
        ensures
            r@ == spec_joined(spec_part_views(self.parts@), self.parts@.len() as int),
    {
        let mut out = String::new();
        let mut i: usize = 0;
        while i < self.parts.len()
            invariant
                i <= self.parts@.len(),
                out@ == spec_joined(spec_part_views(self.parts@), i as int),
            decreases self.parts@.len() - i,
        {
            out.append(self.parts[i].as_str());
            crate::util::push_char(&mut out, '\n');
            proof {
                assert(spec_part_views(self.parts@)[i as int] == self.parts@[i as int]@);
            }
            i += 1;
        }
        out
    }
}

/// One rendered module: its table position, its stable identity, and
/// its printed statement texts (absent when the module emitted
/// nothing).
pub struct RenderedModuleSource {
    pub module_idx: usize,
    pub stable_id: String,
    pub sources: Option<Vec<String>>,
}

/// The fragments one rendered module contributes to the application
/// chunk.
pub open spec fn spec_app_module_parts(m: RenderedModuleSource) -> Seq<Seq<char>> {
    seq![json_string_of(m.stable_id@) + ": function(__rolldown_runtime) {"@] + (match m.sources {
        Some(srcs) => Seq::new(srcs@.len(), |i: int| srcs@[i]@),
        None => Seq::empty(),
    }) + seq!["},\n"@]
}

/// The fragments of the first `n` rendered modules.
pub open spec fn spec_app_modules_parts(ms: Seq<RenderedModuleSource>, n: int) -> Seq<Seq<char>>
    decreases n,
{
    if n <= 0 {
        Seq::empty()
    } else {
        spec_app_modules_parts(ms, n - 1) + spec_app_module_parts(ms[n - 1])
    }
}

/// The view of an optional leading or trailing fragment.
pub open spec fn spec_opt_part(o: Option<&String>) -> Seq<Seq<char>> {
    match o {
        Some(s) => seq![s@],
        None => Seq::empty(),
    }
}

/// Assembles the application-format chunk: optional hashbang, banner
/// and intro, then every module's factory registered in the module
/// map, then the optional outro and footer. The exact fragment list
/// is pinned, so the emitted chunk is a function of its inputs.
#[verifier::loop_isolation(false)]
#[verifier::rlimit(60)]
pub fn render_app(
    hashbang: Option<&String>,
    banner: Option<&String>,
    intro: Option<&String>,
    outro: Option<&String>,
    footer: Option<&String>,
    module_sources: &Vec<RenderedModuleSource>,
) -> (r: SourceJoiner)
    ensures
        spec_part_views(r.parts@) =~= spec_opt_part(hashbang) + spec_opt_part(banner)
            + spec_opt_part(intro) + seq!["var __rolldown_modules = {\n"@]
            + spec_app_modules_parts(module_sources@, module_sources@.len() as int)
            + seq!["};\n"@] + spec_opt_part(outro) + spec_opt_part(footer),
{
    let mut source_joiner = SourceJoiner::new();
    let ghost head = spec_opt_part(hashbang) + spec_opt_part(banner) + spec_opt_part(intro)
        + seq!["var __rolldown_modules = {\n"@];
    match hashbang {
        Some(s) => {
            source_joiner.append_source(s.clone());
        },
        None => {},
    }
    match banner {
        Some(s) => {
            source_joiner.append_source(s.clone());
        },
        None => {},
    }
    match intro {
        Some(s) => {
            source_joiner.append_source(s.clone());
        },
        None => {},
    }
    source_joiner.append_source(String::from_str("var __rolldown_modules = {\n"));
    proof {
        assert(spec_part_views(source_joiner.parts@) =~= head);
    }
    let mut mi: usize = 0;
    while mi < module_sources.len()
        invariant
            mi <= module_sources@.len(),
            spec_part_views(source_joiner.parts@) =~= head + spec_app_modules_parts(
                module_sources@,
                mi as int,
            ),
        decreases module_sources@.len() - mi,
    {
        let m = &module_sources[mi];
        let mut open_text = json_encode_string(m.stable_id.as_str());
        open_text.append(": function(__rolldown_runtime) {");
        source_joiner.append_source(open_text);
        proof {
            assert(spec_part_views(source_joiner.parts@) =~= head + spec_app_modules_parts(
                module_sources@,
                mi as int,
            ) + seq![
                json_string_of(module_sources@[mi as int].stable_id@)
                    + ": function(__rolldown_runtime) {"@,
            ]);
        }
        match &m.sources {
            Some(srcs) => {
                let mut si: usize = 0;
                while si < srcs.len()
                    invariant
                        si <= srcs@.len(),
                        module_sources@[mi as int].sources matches Some(ss) && ss == *srcs,
                        spec_part_views(source_joiner.parts@) =~= head + spec_app_modules_parts(
                            module_sources@,
                            mi as int,
                        ) + seq![
                            json_string_of(module_sources@[mi as int].stable_id@)
                                + ": function(__rolldown_runtime) {"@,
                        ] + Seq::new(si as nat, |k: int| srcs@[k]@),
                    decreases srcs@.len() - si,
                {
                    let ghost pre_parts = source_joiner.parts@;
                    source_joiner.append_source(srcs[si].clone());
                    proof {
                        assert(spec_part_views(source_joiner.parts@) =~= spec_part_views(
                            pre_parts,
                        ).push(srcs@[si as int]@));
                        assert(Seq::new((si + 1) as nat, |k: int| srcs@[k]@) =~= Seq::new(
                            si as nat,
                            |k: int| srcs@[k]@,
                        ).push(srcs@[si as int]@));
                        assert(spec_part_views(source_joiner.parts@) =~= head
                            + spec_app_modules_parts(module_sources@, mi as int) + seq![
                            json_string_of(module_sources@[mi as int].stable_id@)
                                + ": function(__rolldown_runtime) {"@,
                        ] + Seq::new((si + 1) as nat, |k: int| srcs@[k]@));
                    }
                    si += 1;
                }
            },
            None => {},
        }
        proof {
            let mid = (match module_sources@[mi as int].sources {
                Some(ss) => Seq::new(ss@.len(), |k: int| ss@[k]@),
                None => Seq::<Seq<char>>::empty(),
            });
            assert(spec_part_views(source_joiner.parts@) =~= head + spec_app_modules_parts(
                module_sources@,
                mi as int,
            ) + seq![
                json_string_of(module_sources@[mi as int].stable_id@)
                    + ": function(__rolldown_runtime) {"@,
            ] + mid);
        }
        let ghost pre_parts = source_joiner.parts@;
        source_joiner.append_source(String::from_str("},\n"));
        proof {
            assert(spec_part_views(source_joiner.parts@) =~= spec_part_views(pre_parts).push(
                "},\n"@,
            ));
            assert(spec_app_modules_parts(module_sources@, mi as int + 1)
                =~= spec_app_modules_parts(module_sources@, mi as int) + spec_app_module_parts(
                module_sources@[mi as int],
            ));
            assert(spec_app_module_parts(module_sources@[mi as int]) =~= seq![
                json_string_of(module_sources@[mi as int].stable_id@)
                    + ": function(__rolldown_runtime) {"@,
            ] + (match module_sources@[mi as int].sources {
                Some(srcs2) => Seq::new(srcs2@.len(), |k: int| srcs2@[k]@),
                None => Seq::<Seq<char>>::empty(),
            }) + seq!["},\n"@]);
            assert(spec_part_views(source_joiner.parts@) =~= head + spec_app_modules_parts(
                module_sources@,
                mi as int + 1,
            ));
        }
        mi += 1;
    }
    source_joiner.append_source(String::from_str("};\n"));
    match outro {
        Some(s) => {
            source_joiner.append_source(s.clone());
        },
        None => {},
    }
    match footer {
        Some(s) => {
            source_joiner.append_source(s.clone());
        },
        None => {},
    }
    proof {
        assert(spec_part_views(source_joiner.parts@) =~= head + spec_app_modules_parts(
            module_sources@,
            module_sources@.len() as int,
        ) + seq!["};\n"@] + spec_opt_part(outro) + spec_opt_part(footer));
    }
    source_joiner
}

/// The printed text of a statement's first `n` body parts: its text
/// runs in order. A finalized tree has only text runs; a reference
/// that was never substituted prints as nothing.
pub open spec fn spec_parts_text(parts: Seq<StmtPart>, n: int) -> Seq<char>
    decreases n,
{
    if n <= 0 {
        Seq::empty()
    } else {
        spec_parts_text(parts, n - 1) + (match parts[n - 1] {
            StmtPart::Text(t) => t@,
            StmtPart::Sym(_) => Seq::empty(),
        })
    }
}

/// Prints a finalized statement list: one text per statement, each
/// exactly its body's text runs in order.
#[verifier::loop_isolation(false)]
pub fn print_stmts(stmts: &Vec<AstStmt>) -> (r: Vec<String>)
    ensures
        r@.len() == stmts@.len(),
        forall|i: int|
            0 <= i < r@.len() ==> (#[trigger] r@[i])@ == spec_parts_text(
                stmts@[i].parts@,
                stmts@[i].parts@.len() as int,
            ),
{
    let mut out: Vec<String> = Vec::new();
    let mut i: usize = 0;
    while i < stmts.len()
        invariant
            i <= stmts@.len(),
            out@.len() == i,
            forall|k: int|
                0 <= k < i ==> (#[trigger] out@[k])@ == spec_parts_text(
                    stmts@[k].parts@,
                    stmts@[k].parts@.len() as int,
                ),
        decreases stmts@.len() - i,
    {
        let mut text = String::new();
        let parts = &stmts[i].parts;
        let mut j: usize = 0;
        while j < parts.len()
            invariant
                j <= parts@.len(),
                parts == &stmts@[i as int].parts,
                text@ == spec_parts_text(parts@, j as int),
            decreases parts@.len() - j,
        {
            match &parts[j] {
                StmtPart::Text(t) => {
                    text.append(t.as_str());
                },
                StmtPart::Sym(_) => {},
            }
            j += 1;
        }
        out.push(text);
        i += 1;
    }
    out
}

/// Renders the hot-patch chunk: every re-scanned module's tree is
/// rewritten into its isolated closure, registered under its stable
/// identity, and the whole script invokes the runtime's patch entry
/// point with the changed module keys. The caller supplies the
/// freshness stamp for the emitted filename, and the previous build's
/// warnings travel out with the asset.
/// The changed-module listing inside the patch header: each in-range
/// index contributes its module's quoted stable identity, with a
/// separating comma after every entry that more entries follow.
pub open spec fn spec_patch_list(changed: Seq<usize>, modules: Seq<Module>, n: int) -> Seq<char>
    decreases n,
{
    if n <= 0 {
        Seq::empty()
    } else {
        spec_patch_list(changed, modules, n - 1) + (if changed[n - 1] < modules.len() {
            seq!['\u{27}'] + modules[changed[n - 1] as int].spec_stable_id() + seq!['\u{27}'] + (
            if n < changed.len() {
                ", "@
            } else {
                Seq::<char>::empty()
            })
        } else {
            Seq::<char>::empty()
        })
    }
}

/// The whole patch header: the runtime call, the changed-module
/// listing, and the callback opener.
pub open spec fn spec_patch_header(changed: Seq<usize>, modules: Seq<Module>) -> Seq<char> {
    "self.rolldown_runtime.patch(["@ + spec_patch_list(changed, modules, changed.len() as int)
        + "], function(){"@
}

#[verifier::loop_isolation(false)]
pub fn render_hmr_chunk(
    options: &NormalizedBundlerOptions,
    hmr_module_loader_output: &mut HmrModuleLoaderOutput,
    stamp: &String,
) -> (r: BundleOutput)
    requires
        old(hmr_module_loader_output).module_table.wf(),
        old(hmr_module_loader_output).symbol_ref_db.wf(),
    ensures
        r.assets@.len() == 1,
        r.assets@[0].filename@ == "hmr-update."@ + stamp@ + ".js"@,
        r.watch_files@.len() == 0,
        final(hmr_module_loader_output).warnings@.len() == 0,
        r.warnings == old(hmr_module_loader_output).warnings,
        final(hmr_module_loader_output).module_table == old(
            hmr_module_loader_output,
        ).module_table,
        final(hmr_module_loader_output).module_id_to_modules == old(
            hmr_module_loader_output,
        ).module_id_to_modules,
        final(hmr_module_loader_output).index_ecma_ast == old(
            hmr_module_loader_output,
        ).index_ecma_ast,
        final(hmr_module_loader_output).symbol_ref_db == old(
            hmr_module_loader_output,
        ).symbol_ref_db,
        final(hmr_module_loader_output).changed_modules == old(
            hmr_module_loader_output,
        ).changed_modules,
        final(hmr_module_loader_output).diff_modules == old(
            hmr_module_loader_output,
        ).diff_modules,
        r.assets@[0].source@.len() >= spec_patch_header(
            old(hmr_module_loader_output).changed_modules@,
            old(hmr_module_loader_output).module_table.modules@,
        ).len() + 1,
        r.assets@[0].source@.subrange(
            0,
            spec_patch_header(
                old(hmr_module_loader_output).changed_modules@,
                old(hmr_module_loader_output).module_table.modules@,
            ).len() as int,
        ) == spec_patch_header(
            old(hmr_module_loader_output).changed_modules@,
            old(hmr_module_loader_output).module_table.modules@,
        ),
        r.assets@[0].source@.len() >= "});"@.len() + 1,
        r.assets@[0].source@.subrange(
            r.assets@[0].source@.len() - "});"@.len() - 1,
            r.assets@[0].source@.len() as int,
        ) == "});"@ + seq!['\n'],
{
    let ghost lit_head: Seq<char> = "self.rolldown_runtime.patch(["@;
    let ghost changed_g = hmr_module_loader_output.changed_modules@;
    let ghost modules_g = hmr_module_loader_output.module_table.modules@;
    let mut joiner = SourceJoiner::new();
    let mut header = String::from_str("self.rolldown_runtime.patch([");
    proof {
        assert(header@ =~= lit_head + spec_patch_list(changed_g, modules_g, 0));
    }
    let n_changed = hmr_module_loader_output.changed_modules.len();
    let mut ci: usize = 0;
    while ci < n_changed
        invariant
            ci <= n_changed,
            n_changed == hmr_module_loader_output.changed_modules@.len(),
            *hmr_module_loader_output == *old(hmr_module_loader_output),
            header@ == lit_head + spec_patch_list(changed_g, modules_g, ci as int),
        decreases n_changed - ci,
    {
        let ghost pre_h = header@;
        let idx = hmr_module_loader_output.changed_modules[ci];
        if idx < hmr_module_loader_output.module_table.modules.len() {
            push_quote_tick(&mut header);
            let sid = hmr_module_loader_output.module_table.modules[idx].stable_id().clone();
            header.append(sid.as_str());
            push_quote_tick(&mut header);
            if ci + 1 < n_changed {
                header.append(", ");
            }
            proof {
                assert(sid@ == modules_g[idx as int].spec_stable_id());
                let piece: Seq<char> = seq!['\u{27}'] + sid@ + seq!['\u{27}'] + (if ci + 1
                    < changed_g.len() {
                    ", "@
                } else {
                    Seq::<char>::empty()
                });
                assert(header@ =~= pre_h + piece);
                assert(spec_patch_list(changed_g, modules_g, ci + 1) == spec_patch_list(
                    changed_g,
                    modules_g,
                    ci as int,
                ) + piece);
                assert(header@ =~= lit_head + spec_patch_list(changed_g, modules_g, ci + 1));
            }
        } else {
            proof {
                assert(spec_patch_list(changed_g, modules_g, ci + 1) =~= spec_patch_list(
                    changed_g,
                    modules_g,
                    ci as int,
                ));
                assert(header@ =~= lit_head + spec_patch_list(changed_g, modules_g, ci + 1));
            }
        }
        ci += 1;
    }
    header.append("], function(){");
    proof {
        assert(header@ =~= spec_patch_header(changed_g, modules_g));
    }
    let ghost header_view = header@;
    joiner.append_source(header);

    let n_diff = hmr_module_loader_output.diff_modules.len();
    let mut di: usize = 0;
    while di < n_diff
        invariant
            di <= n_diff,
            n_diff == hmr_module_loader_output.diff_modules@.len(),
            *hmr_module_loader_output == *old(hmr_module_loader_output),
            joiner.parts@.len() >= 1,
            joiner.parts@[0]@ == header_view,
            header_view == spec_patch_header(changed_g, modules_g),
        decreases n_diff - di,
    {
        let idx = hmr_module_loader_output.diff_modules[di];
        if idx < hmr_module_loader_output.module_table.modules.len() {
            match &hmr_module_loader_output.module_table.modules[idx] {
                Module::Normal(m) => {
                    match m.ecma_ast_idx {
                        Some(a) => {
                            if a < hmr_module_loader_output.index_ecma_ast.len() {
                                let finalized = finalize_module_isolating(
                                    m,
                                    &hmr_module_loader_output.index_ecma_ast[a].0,
                                    &hmr_module_loader_output.symbol_ref_db,
                                );
                                let sources = print_stmts(&finalized);
                                let mut open_text = String::from_str(
                                    "rolldown_runtime.define(",
                                );
                                push_quote_tick(&mut open_text);
                                open_text.append(m.stable_id.as_str());
                                push_quote_tick(&mut open_text);
                                open_text.append(
                                    ",function(require, module, exports){",
                                );
                                joiner.append_source(open_text);
                                let mut si: usize = 0;
                                while si < sources.len()
                                    invariant
                                        si <= sources@.len(),
                                        *hmr_module_loader_output == *old(
                                            hmr_module_loader_output,
                                        ),
                                        joiner.parts@.len() >= 1,
                                        joiner.parts@[0]@ == header_view,
                                    decreases sources@.len() - si,
                                {
                                    joiner.append_source(sources[si].clone());
                                    si += 1;
                                }
                                joiner.append_source(String::from_str("});"));
                            }
                        },
                        None => {},
                    }
                },
                Module::External(_) => {},
            }
        }
        di += 1;
    }
    joiner.append_source(String::from_str("});"));
    let content = joiner.join();
    proof {
        let pviews = spec_part_views(joiner.parts@);
        let n = joiner.parts@.len() as int;
        assert(pviews[0] == header_view);
        assert(pviews[n - 1] == "});"@);
        lemma_joined_prefix(pviews, n);
        lemma_joined_suffix(pviews, n);
    }

    let mut filename = String::from_str("hmr-update.");
    filename.append(stamp.as_str());
    filename.append(".js");

    let mut assets: Vec<OutputAsset> = Vec::new();
    assets.push(OutputAsset { filename, source: content });

    let mut warnings: Vec<BuildDiagnostic> = Vec::new();
    core::mem::swap(&mut warnings, &mut hmr_module_loader_output.warnings);

    BundleOutput { assets, warnings, watch_files: Vec::new() }
}

/// Appends a single-quote character.
fn push_quote_tick(s: &mut String)
    ensures
        final(s)@ == old(s)@.push('\u{27}'),
{
    crate::util::push_char(s, '\u{27}');
}

} // verus!
