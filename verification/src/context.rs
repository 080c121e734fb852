use vstd::prelude::*;

use crate::assign::matrix_matches;
use crate::assign::resolve_fixed;
use crate::assign::resolve_flexible;
use crate::assign::spec_char_matrix;
use crate::corpus::Corpus;
use crate::corpus::Layout;
use crate::geometry::Keyboard;
use crate::layout_data::LayoutData;
use crate::layout_data::LayoutFormat;
use crate::project::comps_match;
use crate::project::fixed_projection;
use crate::project::flex_projection;

verus! {

/// The n-gram class a metric is computed over by the analysis engine.
#[derive(Copy, Clone, Debug, PartialEq, Eq, Structural)]
pub enum NgramType {
    Monogram,
    Bigram,
    Skipgram,
    Trigram,
}

/// One metric declaration, carried on behalf of the analysis engine.
#[derive(Clone, Debug)]
pub struct Metric {
    pub name: String,
    pub short: String,
    pub ngram_type: NgramType,
}

/// What a context is built from: metric declarations and geometry.
/// The authored description also carries the engine's stroke data;
/// those belong to the external analyzer, not to this core.
#[derive(Debug)]
pub struct MetricData {
    pub metrics: Vec<Metric>,
    pub keyboard: Keyboard,
}

/// The context facade: metric declarations, geometry, the interner and
/// the current resolved layout, owned as one unit. The external
/// analysis engine is handed the resolved matrix and the interner.
#[derive(Debug)]
pub struct MetricContext {
    pub metrics: Vec<Metric>,
    pub keyboard: Keyboard,
    pub corpus: Corpus,
    pub layout: Layout,
}

impl MetricContext {
    /// Resolve an encoding against a geometry into the flat matrix the
    /// analysis engine consumes. Returns `None` exactly when the
    /// encoding does not fit the geometry: a Fixed encoding longer
    /// than the physical key count. A Flexible encoding always fits,
    /// its resolved length being exactly `kb_size + combo_count`.
    pub fn layout_matrix(l: &LayoutData, kb: &Keyboard, corpus: &Corpus) -> (r: Option<Layout>)
        ensures
            match r {
                Some(lay) => spec_char_matrix(*l, *kb) matches Some(cm) && matrix_matches(
                    lay.matrix@,
                    cm,
                    corpus.chars@,
                ),
                None => spec_char_matrix(*l, *kb) is None,
            },
    {
        match &l.format {
            LayoutFormat::Fixed(slots) => match resolve_fixed(slots, kb, corpus) {
                Some(matrix) => Some(Layout { matrix }),
                None => None,
            },
            LayoutFormat::Flexible(comps) => {
                let matrix = resolve_flexible(comps, kb, corpus);
                Some(Layout { matrix })
            },
        }
    }

    /// Re-resolve a new encoding against the existing geometry and
    /// interner, replacing the current matrix wholesale; on a shape
    /// mismatch the context is left unchanged.
    pub fn set_layout(&mut self, l: &LayoutData) -> (r: Option<()>)
        ensures
            final(self).metrics == old(self).metrics,
            final(self).keyboard == old(self).keyboard,
            final(self).corpus == old(self).corpus,
            match r {
                Some(_) => spec_char_matrix(*l, old(self).keyboard) matches Some(cm)
                    && matrix_matches(
                    final(self).layout.matrix@,
                    cm,
                    old(self).corpus.chars@,
                ),
                None => spec_char_matrix(*l, old(self).keyboard) is None && final(self).layout
                    == old(self).layout,
            },
    {
        match Self::layout_matrix(l, &self.keyboard, &self.corpus) {
            Some(lay) => {
                self.layout = lay;
                Some(())
            },
            None => None,
        }
    }

    /// A Fixed-encoding snapshot of the current matrix, for display or
    /// serialization.
    pub fn fixed_layout_data(&self) -> (r: LayoutData)
        ensures
            r.name@ == Seq::<char>::empty(),
            r.authors@.len() == 0,
            r.note is None,
            r.format matches LayoutFormat::Fixed(slots) && slots@ == fixed_projection(
                self.layout.matrix@,
                self.corpus.chars@,
            ),
    {
        LayoutData::fixed_from_layout(&self.layout, &self.corpus)
    }

    /// A Flexible-encoding snapshot of the current matrix, for display
    /// or serialization.
    pub fn flexible_layout_data(&self) -> (r: LayoutData)
        requires
            self.layout.matrix@.len() == self.keyboard.kb_size() + self.keyboard.combo_count(),
            self.keyboard.combos_nonempty(),
        ensures
            r.name@ == Seq::<char>::empty(),
            r.authors@.len() == 0,
            r.note is None,
            r.format matches LayoutFormat::Flexible(comps) && comps_match(
                comps@,
                flex_projection(self.keyboard, self.layout.matrix@, self.corpus.chars@),
            ),
    {
        LayoutData::flexible_from_keyboard_layout(&self.keyboard, &self.layout, &self.corpus)
    }

    /// Build a context: resolve the initial matrix and take ownership
    /// of the declarations, geometry and interner. Fails exactly when
    /// the encoding does not fit the geometry.
    pub fn new(l: &LayoutData, md: MetricData, corpus: Corpus) -> (r: Option<MetricContext>)
        ensures
            match r {
                Some(ctx) => {
                    &&& spec_char_matrix(*l, md.keyboard) matches Some(cm) && matrix_matches(
                        ctx.layout.matrix@,
                        cm,
                        corpus.chars@,
                    )
                    &&& ctx.metrics == md.metrics
                    &&& ctx.keyboard == md.keyboard
                    &&& ctx.corpus == corpus
                },
                None => spec_char_matrix(*l, md.keyboard) is None,
            },
    {
        match Self::layout_matrix(l, &md.keyboard, &corpus) {
            Some(layout) => Some(
                MetricContext { metrics: md.metrics, keyboard: md.keyboard, corpus, layout },
            ),
            None => None,
        }
    }
}

} // verus!
