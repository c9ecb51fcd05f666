use vstd::prelude::*;

use crate::backend::{bindable, qb_push, qb_push_bind, StatementBuffer, StatementView};
use crate::text::{in_list_fn_text, in_list_text, placeholder_run};

verus! {

/// Appends an IN list, one bound placeholder per item.
pub trait PushInItems: StatementView + Sized {
    /// For the items `["a", "b", "c"]` this appends exactly ` in ($1, $2, $3) `
    /// (numbered after the parameters already bound), binding the items in
    /// order through the backend's placeholder mechanism. Each item must be
    /// short enough to bind (see `MAX_BIND_LEN`). Zero items yield ` in () `,
    /// which the caller must treat as matching nothing. No terminator is
    /// emitted: a closing semicolon is the caller's to supply.
    fn in_items(&mut self, items: Vec<String>)
        requires
            old(self).ready_view(),
            forall|i: int| 0 <= i < items@.len() ==> bindable(#[trigger] items@[i]@),
        ensures
            final(self).ready_view(),
            final(self).text_view() == old(self).text_view() + in_list_text(
                old(self).params_view().len(),
                items@.len(),
            ),
            final(self).params_view() == old(self).params_view() + items@.map_values(
                |s: String| s@,
            ),
    ;
}

/// Appends an IN list after extracting the bound item out of each richer
/// element.
pub trait PushExtractedInItems<Entity>: StatementView + Sized {
    /// Like `in_items`, but applies `extract_fn` to each element first and
    /// emits no leading space: `in ($1, $2, $3) `. The bound values are the
    /// extracted ones, in element order; everything the extraction can return
    /// must be short enough to bind (see `MAX_BIND_LEN`).
    fn in_items_fn<F: Fn(&Entity) -> String>(&mut self, entities: &Vec<Entity>, extract_fn: F)
        requires
            old(self).ready_view(),
            forall|i: int| 0 <= i < entities@.len() ==> call_requires(
                extract_fn,
                (&entities@[i],),
            ),
            forall|i: int, s: String|
                0 <= i < entities@.len() && call_ensures(extract_fn, (&entities@[i],), s)
                    ==> bindable(s@),
        ensures
            final(self).ready_view(),
            final(self).text_view() == old(self).text_view() + in_list_fn_text(
                old(self).params_view().len(),
                entities@.len(),
            ),
            final(self).params_view().len() == old(self).params_view().len() + entities@.len(),
            final(self).params_view().take(old(self).params_view().len() as int) == old(
                self,
            ).params_view(),
            exists|vs: Seq<String>|
                #![auto]
                vs.len() == entities@.len() && final(self).params_view() == old(self).params_view()
                    + vs.map_values(|s: String| s@) && (forall|i: int|
                    0 <= i < vs.len() ==> call_ensures(extract_fn, (&entities@[i],), #[trigger] vs[i])),
    ;
}

impl PushInItems for StatementBuffer {
    fn in_items(&mut self, items: Vec<String>) {
        let ghost values = items@.map_values(|s: String| s@);
        let ghost start = self.params_view().len();
        let ghost text0 = self.text_view();
        qb_push(self, " in (");
        let mut i: usize = 0;
        while i < items.len()
            invariant
                i <= items@.len(),
                values == items@.map_values(|s: String| s@),
                forall|k: int| 0 <= k < items@.len() ==> bindable(#[trigger] items@[k]@),
                self.ready_view(),
                self.text_view() == text0 + " in ("@ + placeholder_run(start, i as nat),
                self.params_view().len() == start + i,
                self.params_view() == old(self).params_view() + values.take(i as int),
            decreases items@.len() - i,
        {
            if i != 0 {
                qb_push(self, ", ");
            }
            let item = items[i].clone();
            proof {
                assert(item@ == items@[i as int]@);
                assert(item@ == values[i as int]);
                assert(values.take(i + 1) =~= values.take(i as int).push(values[i as int]));
            }
            qb_push_bind(self, item);
            i = i + 1;
        }
        qb_push(self, ") ");
        proof {
            assert(values.take(values.len() as int) =~= values);
        }
    }
}

impl<Entity> PushExtractedInItems<Entity> for StatementBuffer {
    fn in_items_fn<F: Fn(&Entity) -> String>(&mut self, entities: &Vec<Entity>, extract_fn: F) {
        let ghost start = self.params_view().len();
        let ghost text0 = self.text_view();
        qb_push(self, "in (");
        let ghost mut extracted: Seq<String> = Seq::empty();
        let mut i: usize = 0;
        while i < entities.len()
            invariant
                i <= entities@.len(),
                forall|k: int| 0 <= k < entities@.len() ==> call_requires(
                    extract_fn,
                    (&entities@[k],),
                ),
                forall|k: int, s: String|
                    0 <= k < entities@.len() && call_ensures(extract_fn, (&entities@[k],), s)
                        ==> bindable(s@),
                self.ready_view(),
                self.text_view() == text0 + "in ("@ + placeholder_run(start, i as nat),
                self.params_view().len() == start + i,
                self.params_view() == old(self).params_view() + extracted.map_values(
                    |s: String| s@,
                ),
                extracted.len() == i,
                forall|k: int| 0 <= k < i ==> call_ensures(
                    extract_fn,
                    (&entities@[k],),
                    #[trigger] extracted[k],
                ),
            decreases entities@.len() - i,
        {
            if i != 0 {
                qb_push(self, ", ");
            }
            let item = extract_fn(&entities[i]);
            proof {
                extracted = extracted.push(item);
                assert(extracted.map_values(|s: String| s@) =~= extracted.drop_last().map_values(
                    |s: String| s@,
                ).push(item@));
            }
            qb_push_bind(self, item);
            i = i + 1;
        }
        qb_push(self, ") ");
        proof {
            assert(self.params_view().take(start as int) =~= old(self).params_view());
            assert(extracted.len() == entities@.len() && self.params_view() == old(
                self,
            ).params_view() + extracted.map_values(|s: String| s@) && (forall|i: int|
                0 <= i < extracted.len() ==> call_ensures(
                    extract_fn,
                    (&entities@[i],),
                    #[trigger] extracted[i],
                )));
        }
    }
}

} // verus!
