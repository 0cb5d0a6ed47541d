//! Renderers over decoded notebooks that work on plain values: raw text
//! extraction (the typed text of every text block, one line per chunk) and
//! structural statistics.

use vstd::prelude::*;
use vstd::string::StringExecFns;

use crate::config::MarkdownCfg;
use crate::types::{Block, Notebook, RMError, SpecBlock, SpecTextChunk, TextChunk};

verus! {

/// The text of each chunk, in order.
pub open spec fn sp_texts_of(chunks: Seq<SpecTextChunk>) -> Seq<Seq<char>> {
    chunks.map_values(|c: SpecTextChunk| c.text)
}

/// The chunk texts of every text block of a run, in document order.
pub open spec fn sp_chunk_texts(blocks: Seq<SpecBlock>) -> Seq<Seq<char>>
    decreases blocks.len(),
{
    if blocks.len() == 0 {
        Seq::empty()
    } else {
        let rest = sp_chunk_texts(blocks.drop_first());
        match blocks[0] {
            SpecBlock::TextDef(t) => sp_texts_of(t.texts) + rest,
            _ => rest,
        }
    }
}

/// Appending a block appends its chunk texts (if it is a text block).
pub proof fn lemma_chunk_texts_push(blocks: Seq<SpecBlock>, b: SpecBlock)
    ensures
        sp_chunk_texts(blocks.push(b)) == match b {
            SpecBlock::TextDef(t) => sp_chunk_texts(blocks) + sp_texts_of(t.texts),
            _ => sp_chunk_texts(blocks),
        },
    decreases blocks.len(),
{
    reveal_with_fuel(sp_chunk_texts, 2);
    if blocks.len() == 0 {
        assert(blocks.push(b)[0] == b);
        assert(blocks.push(b).drop_first() =~= Seq::<SpecBlock>::empty());
        match b {
            SpecBlock::TextDef(t) => {
                assert(sp_texts_of(t.texts) + Seq::<Seq<char>>::empty() =~= sp_chunk_texts(blocks)
                    + sp_texts_of(t.texts));
            },
            _ => {},
        }
    } else {
        assert(blocks.push(b)[0] == blocks[0]);
        assert(blocks.push(b).drop_first() =~= blocks.drop_first().push(b));
        lemma_chunk_texts_push(blocks.drop_first(), b);
        match (blocks[0], b) {
            (SpecBlock::TextDef(h), SpecBlock::TextDef(t)) => {
                assert(sp_texts_of(h.texts) + (sp_chunk_texts(blocks.drop_first()) + sp_texts_of(
                    t.texts,
                )) =~= (sp_texts_of(h.texts) + sp_chunk_texts(blocks.drop_first())) + sp_texts_of(
                    t.texts,
                ));
            },
            _ => {},
        }
    }
}

/// The given texts joined with a single newline between neighbours.
pub open spec fn sp_join_nl(texts: Seq<Seq<char>>) -> Seq<char>
    decreases texts.len(),
{
    if texts.len() == 0 {
        Seq::empty()
    } else if texts.len() == 1 {
        texts[0]
    } else {
        texts[0] + seq!['\n'] + sp_join_nl(texts.drop_first())
    }
}

/// Appending a text appends a newline and the text (or is the text alone,
/// for the first one).
pub proof fn lemma_join_nl_push(texts: Seq<Seq<char>>, t: Seq<char>)
    ensures
        sp_join_nl(texts.push(t)) == if texts.len() == 0 {
            t
        } else {
            sp_join_nl(texts) + seq!['\n'] + t
        },
    decreases texts.len(),
{
    reveal_with_fuel(sp_join_nl, 3);
    if texts.len() == 0 {
        assert(texts.push(t)[0] == t);
    } else if texts.len() == 1 {
        assert(texts.push(t)[0] == texts[0]);
        assert(texts.push(t).drop_first() =~= Seq::<Seq<char>>::empty().push(t));
        assert(Seq::<Seq<char>>::empty().push(t)[0] == t);
        assert(sp_join_nl(texts.push(t)) == texts[0] + seq!['\n'] + t);
    } else {
        assert(texts.push(t)[0] == texts[0]);
        assert(texts.push(t).drop_first() =~= texts.drop_first().push(t));
        lemma_join_nl_push(texts.drop_first(), t);
        assert(texts[0] + seq!['\n'] + (sp_join_nl(texts.drop_first()) + seq!['\n'] + t) =~= (
        texts[0] + seq!['\n'] + sp_join_nl(texts.drop_first())) + seq!['\n'] + t);
    }
}

/// Collects the chunk texts of every text block, in document order.
fn collect_texts(nb: &Notebook) -> (r: Vec<String>)
    ensures
        r@.map_values(|s: String| s@) == sp_chunk_texts(nb@.blocks),
{
    let mut texts: Vec<String> = Vec::new();
    let n = nb.blocks.len();
    let mut i: usize = 0;
    while i < n
        invariant
            i <= n == nb.blocks@.len(),
            texts@.map_values(|s: String| s@) == sp_chunk_texts(
                nb.blocks@.map_values(|b: Block| b@).take(i as int),
            ),
        decreases n - i,
    {
        let ghost gblocks = nb.blocks@.map_values(|b: Block| b@);
        proof {
            lemma_chunk_texts_push(gblocks.take(i as int), gblocks[i as int]);
            assert(gblocks.take(i + 1) =~= gblocks.take(i as int).push(gblocks[i as int]));
        }
        match &nb.blocks[i] {
            Block::TextDef(t) => {
                let ghost base = texts@.map_values(|s: String| s@);
                let m = t.texts.len();
                let mut j: usize = 0;
                while j < m
                    invariant
                        j <= m == t.texts@.len(),
                        texts@.map_values(|s: String| s@) == base + t.texts@.subrange(
                            0,
                            j as int,
                        ).map_values(|c: TextChunk| c@.text),
                    decreases m - j,
                {
                    let ghost prevvec = texts@;
                    let s_clone = t.texts[j].text.clone();
                    texts.push(s_clone);
                    proof {
                        let f = |s: String| s@;
                        let g = |c: TextChunk| c@.text;
                        let sub0 = t.texts@.subrange(0, j as int).map_values(g);
                        let elem = t.texts@[j as int]@.text;
                        assert(texts@ =~= prevvec.push(t.texts@[j as int].text));
                        assert(texts@.map_values(f) =~= prevvec.map_values(f).push(elem));
                        assert(t.texts@.subrange(0, j + 1).map_values(g) =~= sub0.push(elem));
                        assert(base + sub0.push(elem) =~= (base + sub0).push(elem));
                        assert(texts@.map_values(f) =~= base + t.texts@.subrange(0, j + 1
                        ).map_values(g));
                        assert(texts@.map_values(|s: String| s@) =~= base + t.texts@.subrange(
                            0,
                            j + 1,
                        ).map_values(|c: TextChunk| c@.text));
                    }
                    j = j + 1;
                }
                proof {
                    assert(base + t.texts@.subrange(0, m as int).map_values(|c: TextChunk| c@.text)
                        =~~= base + sp_texts_of(t@.texts));
                }
            },
            _ => {},
        }
        i = i + 1;
    }
    proof {
        assert(nb.blocks@.map_values(|b: Block| b@).take(n as int) =~= nb.blocks@.map_values(
            |b: Block| b@,
        ));
    }
    texts
}

/// Renders the typed text of a notebook: every chunk of every text block,
/// in order, joined by newlines.  Text formatting is not interpreted.
pub fn render_markdown(nb: &Notebook, cfg: MarkdownCfg) -> (r: Result<String, RMError>)
    ensures
        r matches Ok(s) && s@ == sp_join_nl(sp_chunk_texts(nb@.blocks)),
{
    let texts = collect_texts(nb);
    let ghost tm = texts@.map_values(|s: String| s@);
    let mut out = String::new();
    let m = texts.len();
    if m == 0 {
        return Ok(out);
    }
    out.append(texts[0].as_str());
    proof {
        assert(tm.take(1) =~= Seq::<Seq<char>>::empty().push(tm[0]));
        lemma_join_nl_push(Seq::<Seq<char>>::empty(), tm[0]);
        assert(Seq::<char>::empty() + tm[0] =~= tm[0]);
    }
    let mut i: usize = 1;
    while i < m
        invariant
            1 <= i <= m == texts@.len(),
            tm == texts@.map_values(|s: String| s@),
            out@ == sp_join_nl(tm.take(i as int)),
        decreases m - i,
    {
        proof {
            reveal_strlit("\n");
        }
        out.append("\n");
        out.append(texts[i].as_str());
        proof {
            lemma_join_nl_push(tm.take(i as int), tm[i as int]);
            assert(tm.take(i + 1) =~= tm.take(i as int).push(tm[i as int]));
            assert(("\n")@ =~= seq!['\n']);
        }
        i = i + 1;
    }
    proof {
        assert(tm.take(m as int) =~= tm);
    }
    Ok(out)
}

/// How many blocks of a run satisfy `f`.
pub open spec fn sp_count(blocks: Seq<SpecBlock>, f: spec_fn(SpecBlock) -> bool) -> int
    decreases blocks.len(),
{
    if blocks.len() == 0 {
        0
    } else {
        (if f(blocks[0]) {
            1int
        } else {
            0int
        }) + sp_count(blocks.drop_first(), f)
    }
}

/// Appending a block raises the count by one exactly when it satisfies `f`.
pub proof fn lemma_count_push(blocks: Seq<SpecBlock>, f: spec_fn(SpecBlock) -> bool, b: SpecBlock)
    ensures
        sp_count(blocks.push(b), f) == sp_count(blocks, f) + (if f(b) {
            1int
        } else {
            0int
        }),
    decreases blocks.len(),
{
    reveal_with_fuel(sp_count, 2);
    if blocks.len() == 0 {
        assert(blocks.push(b)[0] == b);
        assert(blocks.push(b).drop_first() =~= Seq::<SpecBlock>::empty());
    } else {
        assert(blocks.push(b)[0] == blocks[0]);
        assert(blocks.push(b).drop_first() =~= blocks.drop_first().push(b));
        lemma_count_push(blocks.drop_first(), f, b);
    }
}

/// The total number of points across the stroke blocks of a run.
pub open spec fn sp_total_points(blocks: Seq<SpecBlock>) -> int
    decreases blocks.len(),
{
    if blocks.len() == 0 {
        0
    } else {
        (match blocks[0] {
            SpecBlock::Line(l) => l.points.len() as int,
            _ => 0int,
        }) + sp_total_points(blocks.drop_first())
    }
}

/// Appending a block adds its point count to the total.
pub proof fn lemma_total_points_push(blocks: Seq<SpecBlock>, b: SpecBlock)
    ensures
        sp_total_points(blocks.push(b)) == sp_total_points(blocks) + (match b {
            SpecBlock::Line(l) => l.points.len() as int,
            _ => 0int,
        }),
    decreases blocks.len(),
{
    reveal_with_fuel(sp_total_points, 2);
    if blocks.len() == 0 {
        assert(blocks.push(b)[0] == b);
        assert(blocks.push(b).drop_first() =~= Seq::<SpecBlock>::empty());
    } else {
        assert(blocks.push(b)[0] == blocks[0]);
        assert(blocks.push(b).drop_first() =~= blocks.drop_first().push(b));
        lemma_total_points_push(blocks.drop_first(), b);
    }
}

/// Every prefix total is at most the whole total.
pub proof fn lemma_total_points_prefix(blocks: Seq<SpecBlock>, j: int)
    requires
        0 <= j <= blocks.len(),
    ensures
        sp_total_points(blocks.take(j)) <= sp_total_points(blocks),
    decreases blocks.len() - j,
{
    if j == blocks.len() {
        assert(blocks.take(j) =~= blocks);
    } else {
        lemma_total_points_push(blocks.take(j), blocks[j]);
        assert(blocks.take(j + 1) =~= blocks.take(j).push(blocks[j]));
        lemma_total_points_prefix(blocks, j + 1);
    }
}

/// The total number of text chunks across the text blocks of a run.
pub open spec fn sp_total_chunks(blocks: Seq<SpecBlock>) -> int
    decreases blocks.len(),
{
    if blocks.len() == 0 {
        0
    } else {
        (match blocks[0] {
            SpecBlock::TextDef(t) => t.texts.len() as int,
            _ => 0int,
        }) + sp_total_chunks(blocks.drop_first())
    }
}

/// Appending a block adds its chunk count to the total.
pub proof fn lemma_total_chunks_push(blocks: Seq<SpecBlock>, b: SpecBlock)
    ensures
        sp_total_chunks(blocks.push(b)) == sp_total_chunks(blocks) + (match b {
            SpecBlock::TextDef(t) => t.texts.len() as int,
            _ => 0int,
        }),
    decreases blocks.len(),
{
    reveal_with_fuel(sp_total_chunks, 2);
    if blocks.len() == 0 {
        assert(blocks.push(b)[0] == b);
        assert(blocks.push(b).drop_first() =~= Seq::<SpecBlock>::empty());
    } else {
        assert(blocks.push(b)[0] == blocks[0]);
        assert(blocks.push(b).drop_first() =~= blocks.drop_first().push(b));
        lemma_total_chunks_push(blocks.drop_first(), b);
    }
}

/// Every prefix total is at most the whole total.
pub proof fn lemma_total_chunks_prefix(blocks: Seq<SpecBlock>, j: int)
    requires
        0 <= j <= blocks.len(),
    ensures
        sp_total_chunks(blocks.take(j)) <= sp_total_chunks(blocks),
    decreases blocks.len() - j,
{
    if j == blocks.len() {
        assert(blocks.take(j) =~= blocks);
    } else {
        lemma_total_chunks_push(blocks.take(j), blocks[j]);
        assert(blocks.take(j + 1) =~= blocks.take(j).push(blocks[j]));
        lemma_total_chunks_prefix(blocks, j + 1);
    }
}

/// The total number of backmatter records across the text blocks of a run.
pub open spec fn sp_total_backmatters(blocks: Seq<SpecBlock>) -> int
    decreases blocks.len(),
{
    if blocks.len() == 0 {
        0
    } else {
        (match blocks[0] {
            SpecBlock::TextDef(t) => t.backmatter.len() as int,
            _ => 0int,
        }) + sp_total_backmatters(blocks.drop_first())
    }
}

/// Appending a block adds its backmatter count to the total.
pub proof fn lemma_total_backmatters_push(blocks: Seq<SpecBlock>, b: SpecBlock)
    ensures
        sp_total_backmatters(blocks.push(b)) == sp_total_backmatters(blocks) + (match b {
            SpecBlock::TextDef(t) => t.backmatter.len() as int,
            _ => 0int,
        }),
    decreases blocks.len(),
{
    reveal_with_fuel(sp_total_backmatters, 2);
    if blocks.len() == 0 {
        assert(blocks.push(b)[0] == b);
        assert(blocks.push(b).drop_first() =~= Seq::<SpecBlock>::empty());
    } else {
        assert(blocks.push(b)[0] == blocks[0]);
        assert(blocks.push(b).drop_first() =~= blocks.drop_first().push(b));
        lemma_total_backmatters_push(blocks.drop_first(), b);
    }
}

/// Every prefix total is at most the whole total.
pub proof fn lemma_total_backmatters_prefix(blocks: Seq<SpecBlock>, j: int)
    requires
        0 <= j <= blocks.len(),
    ensures
        sp_total_backmatters(blocks.take(j)) <= sp_total_backmatters(blocks),
    decreases blocks.len() - j,
{
    if j == blocks.len() {
        assert(blocks.take(j) =~= blocks);
    } else {
        lemma_total_backmatters_push(blocks.take(j), blocks[j]);
        assert(blocks.take(j + 1) =~= blocks.take(j).push(blocks[j]));
        lemma_total_backmatters_prefix(blocks, j + 1);
    }
}

/// Structural counts over one decoded notebook.
#[derive(Debug, Clone, Copy, PartialEq, Eq, Structural)]
pub struct Stats {
    pub blocks: usize,
    pub lines: usize,
    pub points: usize,
    pub layer_defs: usize,
    pub layer_names: usize,
    pub layer_infos: usize,
    pub text_defs: usize,
    pub text_chunks: usize,
    pub text_backmatters: usize,
}

/// Counts the blocks of each kind and the points of every stroke.
pub fn notebook_stats(nb: &Notebook) -> (r: Stats)
    requires
        sp_total_points(nb@.blocks) <= usize::MAX,
        sp_total_chunks(nb@.blocks) <= usize::MAX,
        sp_total_backmatters(nb@.blocks) <= usize::MAX,
    ensures
        r.blocks == nb@.blocks.len(),
        r.lines == sp_count(nb@.blocks, |b: SpecBlock| b is Line),
        r.points == sp_total_points(nb@.blocks),
        r.layer_defs == sp_count(nb@.blocks, |b: SpecBlock| b is LayerDef),
        r.layer_names == sp_count(nb@.blocks, |b: SpecBlock| b is LayerName),
        r.layer_infos == sp_count(nb@.blocks, |b: SpecBlock| b is LayerInfo),
        r.text_defs == sp_count(nb@.blocks, |b: SpecBlock| b is TextDef),
        r.text_chunks == sp_total_chunks(nb@.blocks),
        r.text_backmatters == sp_total_backmatters(nb@.blocks),
{
    let n = nb.blocks.len();
    let mut lines: usize = 0;
    let mut points: usize = 0;
    let mut layer_defs: usize = 0;
    let mut layer_names: usize = 0;
    let mut layer_infos: usize = 0;
    let mut text_defs: usize = 0;
    let mut text_chunks: usize = 0;
    let mut text_backmatters: usize = 0;
    let mut i: usize = 0;
    while i < n
        invariant
            i <= n == nb.blocks@.len(),
            sp_total_points(nb@.blocks) <= usize::MAX,
            sp_total_chunks(nb@.blocks) <= usize::MAX,
            sp_total_backmatters(nb@.blocks) <= usize::MAX,
            nb@.blocks == nb.blocks@.map_values(|b: Block| b@),
            lines as int == sp_count(
                nb@.blocks.take(i as int),
                |b: SpecBlock| b is Line,
            ) <= i as int,
            points as int == sp_total_points(nb@.blocks.take(i as int)),
            text_chunks as int == sp_total_chunks(nb@.blocks.take(i as int)),
            text_backmatters as int == sp_total_backmatters(nb@.blocks.take(i as int)),
            layer_defs as int == sp_count(
                nb@.blocks.take(i as int),
                |b: SpecBlock| b is LayerDef,
            ) <= i as int,
            layer_names as int == sp_count(
                nb@.blocks.take(i as int),
                |b: SpecBlock| b is LayerName,
            ) <= i as int,
            layer_infos as int == sp_count(
                nb@.blocks.take(i as int),
                |b: SpecBlock| b is LayerInfo,
            ) <= i as int,
            text_defs as int == sp_count(
                nb@.blocks.take(i as int),
                |b: SpecBlock| b is TextDef,
            ) <= i as int,
        decreases n - i,
    {
        let ghost gblocks = nb@.blocks;
        proof {
            lemma_count_push(gblocks.take(i as int), |b: SpecBlock| b is Line, gblocks[i as int]);
            lemma_count_push(
                gblocks.take(i as int),
                |b: SpecBlock| b is LayerDef,
                gblocks[i as int],
            );
            lemma_count_push(
                gblocks.take(i as int),
                |b: SpecBlock| b is LayerName,
                gblocks[i as int],
            );
            lemma_count_push(
                gblocks.take(i as int),
                |b: SpecBlock| b is LayerInfo,
                gblocks[i as int],
            );
            lemma_count_push(
                gblocks.take(i as int),
                |b: SpecBlock| b is TextDef,
                gblocks[i as int],
            );
            lemma_total_points_push(gblocks.take(i as int), gblocks[i as int]);
            lemma_total_points_prefix(gblocks, i + 1);
            lemma_total_chunks_push(gblocks.take(i as int), gblocks[i as int]);
            lemma_total_chunks_prefix(gblocks, i + 1);
            lemma_total_backmatters_push(gblocks.take(i as int), gblocks[i as int]);
            lemma_total_backmatters_prefix(gblocks, i + 1);
            assert(gblocks.take(i + 1) =~= gblocks.take(i as int).push(gblocks[i as int]));
        }
        match &nb.blocks[i] {
            Block::Line(l) => {
                lines = lines + 1;
                points = points + l.points.len();
            },
            Block::LayerDef(_) => {
                layer_defs = layer_defs + 1;
            },
            Block::LayerName(_) => {
                layer_names = layer_names + 1;
            },
            Block::LayerInfo(_) => {
                layer_infos = layer_infos + 1;
            },
            Block::TextDef(t) => {
                text_defs = text_defs + 1;
                text_chunks = text_chunks + t.texts.len();
                text_backmatters = text_backmatters + t.backmatter.len();
            },
            Block::Unknown(_, _) => {},
        }
        i = i + 1;
    }
    proof {
        assert(nb@.blocks.take(n as int) =~= nb@.blocks);
    }
    Stats {
        blocks: n,
        lines,
        points,
        layer_defs,
        layer_names,
        layer_infos,
        text_defs,
        text_chunks,
        text_backmatters,
    }
}

} // verus!
