//! The interactive table: the master transaction list, a filtered view
//! for searching, a wrapping row cursor, and a modal state machine that
//! dispatches key input to sorting, searching, help and the edit form.
//!
//! Committing an edit records the new title's category in the learning
//! map, renames every row that shared the edited row's previous title,
//! remembers the rename as a title alias, and re-derives every row's
//! title and category from the two maps.

use vstd::prelude::*;

use crate::form::form_init;
use crate::form::form_step;
use crate::form::string_field_step;
use crate::form::FormOutcome;
use crate::form::FormStep;
use crate::form::PopupForm;
use crate::form::StringField;
use crate::input::Key;
use crate::labeling::map_insert;
use crate::labeling::map_lookup;
use crate::labeling::FieldMap;
use crate::models::clone_transactions;
use crate::models::lemma_vec_deep_view;
use crate::models::Category;
use crate::models::Transaction;
use crate::models::TransactionV;
use crate::sort::sort_spec;
use crate::sort::sort_transactions;
use crate::sort::SortOptions;
use crate::text::contains_seq;
use crate::text::contains_sub;
use crate::text::lower;
use crate::text::to_lower;

verus! {

/// The table's interaction state: exactly one is active and it gates
/// which component receives key input.
#[derive(Clone, Copy, PartialEq, Eq, Structural, Debug)]
pub enum TableMode {
    Popup,
    Normal,
    Ordering,
    Help,
    Search,
    Searched,
}

/// The search field's capacity: the width reserved in the footer.
pub const SEARCH_MAX_LEN: usize = 40;

/// Whether a transaction's title contains the query, case-insensitively.
pub open spec fn title_matches(t: TransactionV, q: Seq<char>) -> bool {
    contains_seq(lower(t.title), lower(q))
}

/// The subsequence of `items` whose titles contain the query.
pub open spec fn filter_by_query(items: Seq<TransactionV>, q: Seq<char>) -> Seq<TransactionV>
    decreases items.len(),
{
    if items.len() == 0 {
        items
    } else if title_matches(items.last(), q) {
        filter_by_query(items.drop_last(), q) + seq![items.last()]
    } else {
        filter_by_query(items.drop_last(), q)
    }
}

/// The indices, in increasing order, of the rows the filter keeps.
pub open spec fn filter_indices(items: Seq<TransactionV>, q: Seq<char>) -> Seq<int>
    decreases items.len(),
{
    if items.len() == 0 {
        Seq::<int>::empty()
    } else if title_matches(items.last(), q) {
        filter_indices(items.drop_last(), q) + seq![items.len() - 1]
    } else {
        filter_indices(items.drop_last(), q)
    }
}

/// `f` lists positions in `b`, in strictly increasing order, at which
/// the elements of `a` appear in order.
pub open spec fn subsequence_via(f: Seq<int>, a: Seq<TransactionV>, b: Seq<TransactionV>) -> bool {
    &&& f.len() == a.len()
    &&& (forall|k: int, l: int| 0 <= k < l < f.len() ==> #[trigger] f[k] < #[trigger] f[l])
    &&& (forall|k: int| 0 <= k < f.len() ==> 0 <= #[trigger] f[k] < b.len() && b[f[k]] == a[k])
}

/// `a` is a subsequence of `b`: its elements appear in `b`, in order.
pub open spec fn is_subsequence_of(a: Seq<TransactionV>, b: Seq<TransactionV>) -> bool {
    exists|f: Seq<int>| #[trigger] subsequence_via(f, a, b)
}

/// Filtering gives a subsequence of the input, every kept row's title
/// contains the query, and the result never outgrows the input.
pub proof fn lemma_filter_subsequence(items: Seq<TransactionV>, q: Seq<char>)
    ensures
        is_subsequence_of(filter_by_query(items, q), items),
        subsequence_via(filter_indices(items, q), filter_by_query(items, q), items),
        forall|i: int|
            0 <= i < filter_by_query(items, q).len() ==> title_matches(
                #[trigger] filter_by_query(items, q)[i],
                q,
            ) && items.contains(filter_by_query(items, q)[i]),
        filter_by_query(items, q).len() <= items.len(),
    decreases items.len(),
{
    if items.len() == 0 {
        assert(subsequence_via(
            filter_indices(items, q),
            filter_by_query(items, q),
            items,
        ));
    } else {
        let d = items.drop_last();
        lemma_filter_subsequence(d, q);
        assert(forall|j: int| 0 <= j < d.len() ==> d[j] == items[j]);
        let rf = filter_indices(d, q);
        let rr = filter_by_query(d, q);
        if title_matches(items.last(), q) {
            let f = rf + seq![items.len() - 1];
            let r = rr + seq![items.last()];
            assert(forall|k: int| 0 <= k < rf.len() ==> f[k] == rf[k]);
            assert(forall|k: int| 0 <= k < rr.len() ==> r[k] == rr[k]);
            assert(f[f.len() - 1] == items.len() - 1);
            assert(r[r.len() - 1] == items.last());
            assert(subsequence_via(f, r, items));
            assert forall|i: int| 0 <= i < r.len() implies title_matches(#[trigger] r[i], q)
                && items.contains(r[i]) by {
                if i < rr.len() {
                    let w = choose|w: int| 0 <= w < d.len() && d[w] == rr[i];
                    assert(items[w] == r[i]);
                } else {
                    assert(items[items.len() - 1] == r[i]);
                }
            }
        } else {
            assert forall|k: int|
                0 <= k < rf.len() implies 0 <= #[trigger] rf[k] < items.len() && items[rf[k]]
                == rr[k] by {
                assert(d[rf[k]] == rr[k]);
            }
            assert(subsequence_via(rf, rr, items));
            assert forall|i: int| 0 <= i < rr.len() implies title_matches(#[trigger] rr[i], q)
                && items.contains(rr[i]) by {
                let w = choose|w: int| 0 <= w < d.len() && d[w] == rr[i];
                assert(items[w] == rr[i]);
            }
        }
    }
}

/// An empty query keeps every row: the filtered view is the full list.
pub proof fn lemma_filter_empty_query(items: Seq<TransactionV>)
    ensures
        filter_by_query(items, Seq::<char>::empty()) == items,
    decreases items.len(),
{
    let q = Seq::<char>::empty();
    assert(lower(q) =~= q);
    if items.len() == 0 {
    } else {
        let d = items.drop_last();
        lemma_filter_empty_query(d);
        crate::text::lemma_contains_empty(lower(items.last().title));
        assert(title_matches(items.last(), q));
        assert(d + seq![items.last()] =~= items);
    }
}

/// The sort the ordering menu assigns to a key, if any: `d`/`D` by
/// date, `t`/`T` by title, `a`/`A` by amount, lower case ascending.
pub open spec fn chosen_sort(key: Key) -> Option<SortOptions> {
    match key {
        Key::Char(c) => if c == 'd' {
            Some(SortOptions::DateAsc)
        } else if c == 'D' {
            Some(SortOptions::DateDesc)
        } else if c == 't' {
            Some(SortOptions::TitleAsc)
        } else if c == 'T' {
            Some(SortOptions::TitleDesc)
        } else if c == 'a' {
            Some(SortOptions::AmountAsc)
        } else if c == 'A' {
            Some(SortOptions::AmountDesc)
        } else {
            None
        },
        _ => None,
    }
}

/// One step of the row cursor, wrapping past the last row. On an empty
/// list the cursor stays put.
pub open spec fn cursor_next(c: int, len: int) -> int {
    if len <= 0 {
        c
    } else if c + 1 >= len {
        0
    } else {
        c + 1
    }
}

/// One step of the row cursor backwards, wrapping past the first row.
/// On an empty list the cursor stays put.
pub open spec fn cursor_previous(c: int, len: int) -> int {
    if len <= 0 {
        c
    } else if c == 0 {
        len - 1
    } else {
        c - 1
    }
}

/// The index of the first item with this identity, or -1 when none has
/// it.
pub open spec fn first_index_with_id(s: Seq<TransactionV>, id: u32) -> int
    decreases s.len(),
{
    if s.len() == 0 {
        -1
    } else if s[0].id == id {
        0
    } else {
        let r = first_index_with_id(s.drop_first(), id);
        if r == -1 {
            -1
        } else {
            r + 1
        }
    }
}

/// What `first_index_with_id` finds: the match with no earlier match,
/// or -1 exactly when no item has the identity.
pub proof fn lemma_first_index_with_id(s: Seq<TransactionV>, id: u32)
    ensures
        -1 <= first_index_with_id(s, id) < s.len(),
        first_index_with_id(s, id) == -1 ==> forall|j: int|
            0 <= j < s.len() ==> (#[trigger] s[j]).id != id,
        first_index_with_id(s, id) >= 0 ==> s[first_index_with_id(s, id)].id == id,
        first_index_with_id(s, id) >= 0 ==> forall|j: int|
            0 <= j < first_index_with_id(s, id) ==> (#[trigger] s[j]).id != id,
    decreases s.len(),
{
    if s.len() == 0 {
    } else if s[0].id == id {
    } else {
        let d = s.drop_first();
        lemma_first_index_with_id(d, id);
        assert(forall|j: int| 0 <= j < d.len() ==> d[j] == s[j + 1]);
        if first_index_with_id(s, id) == -1 {
            assert forall|j: int| 0 <= j < s.len() implies (#[trigger] s[j]).id != id by {
                if j > 0 {
                    assert(d[j - 1].id != id);
                }
            }
        } else {
            assert forall|j: int|
                0 <= j < first_index_with_id(s, id) implies (#[trigger] s[j]).id != id by {
                if j > 0 {
                    assert(d[j - 1].id != id);
                }
            }
        }
    }
}

/// Every row whose title equals `ot` renamed to `nt`, other rows kept.
pub open spec fn retitled(items: Seq<TransactionV>, ot: Seq<char>, nt: Seq<char>) -> Seq<
    TransactionV,
> {
    items.map_values(
        |t: TransactionV|
            if t.title == ot {
                TransactionV { title: nt, ..t }
            } else {
                t
            },
    )
}

/// One normalization pass over a single row: replace the title by its
/// recorded alias, if any, then re-derive the category of the resulting
/// title from the learning map.
pub open spec fn normalize_tx(
    t: TransactionV,
    titles: Seq<(Seq<char>, Seq<char>)>,
    cats: Seq<(Seq<char>, Category)>,
) -> TransactionV {
    let t1 = match map_lookup(titles, t.title) {
        Some(nt) => TransactionV { title: nt, ..t },
        None => t,
    };
    TransactionV { group: map_lookup(cats, t1.title), ..t1 }
}

/// The normalization pass over the whole list.
pub open spec fn normalized(
    items: Seq<TransactionV>,
    titles: Seq<(Seq<char>, Seq<char>)>,
    cats: Seq<(Seq<char>, Category)>,
) -> Seq<TransactionV> {
    items.map_values(|t: TransactionV| normalize_tx(t, titles, cats))
}

/// The learning map after a commit: the edited title's category is
/// recorded under the lower-cased new title.
pub open spec fn commit_cats(cats: Seq<(Seq<char>, Category)>, edited: TransactionV) -> Seq<
    (Seq<char>, Category),
> {
    match edited.group {
        Some(c) => map_insert(cats, lower(edited.title), c),
        None => cats,
    }
}

/// The alias map after a commit: the edited row's previous title now
/// maps to the new one.
pub open spec fn commit_titles(
    titles: Seq<(Seq<char>, Seq<char>)>,
    ot: Seq<char>,
    nt: Seq<char>,
) -> Seq<(Seq<char>, Seq<char>)> {
    map_insert(titles, lower(ot), nt)
}

/// The transaction list after a commit: rows sharing the edited row's
/// previous title are renamed, then the whole list is normalized
/// against the updated maps.
pub open spec fn commit_items(
    items: Seq<TransactionV>,
    titles: Seq<(Seq<char>, Seq<char>)>,
    cats: Seq<(Seq<char>, Category)>,
    edited: TransactionV,
) -> Seq<TransactionV> {
    let ot = items[first_index_with_id(items, edited.id)].title;
    normalized(
        retitled(items, ot, edited.title),
        commit_titles(titles, ot, edited.title),
        commit_cats(cats, edited),
    )
}

/// How one key press steps the table: the full transition relation of
/// `handle_key_events`, stated over the state before and after.
pub open spec fn table_steps(pre: TableComponent, post: TableComponent, key: Key) -> bool {
        &&& ({
            pre.mode is Normal ==> match key {
                Key::Enter => if pre.displayed().len() > 0 {
                    &&& post.mode is Popup
                    &&& match post.popup {
                        Some(f) => f@ == form_init(pre.displayed()[pre.cursor as int]),
                        None => false,
                    }
                    &&& post.items == pre.items
                    &&& post.filtered_items == pre.filtered_items
                    &&& post.cursor == pre.cursor
                    &&& post.search == pre.search
                    &&& post.title_map == pre.title_map
                    &&& post.category_map == pre.category_map
                } else {
                    post == pre
                },
                Key::Down => post.stepped_cursor(&pre, true),
                Key::Up => post.stepped_cursor(&pre, false),
                Key::Char(c) => if c == 'k' {
                    post.stepped_cursor(&pre, true)
                } else if c == 'l' {
                    post.stepped_cursor(&pre, false)
                } else if c == 'o' {
                    post.switched_mode(&pre, TableMode::Ordering)
                } else if c == '?' {
                    post.switched_mode(&pre, TableMode::Help)
                } else if c == '/' {
                    &&& post.mode is Search
                    &&& post.filtered_items.deep_view() == pre.items.deep_view()
                    &&& post.items == pre.items
                    &&& post.cursor == pre.cursor
                    &&& post.popup == pre.popup
                    &&& post.search == pre.search
                    &&& post.title_map == pre.title_map
                    &&& post.category_map == pre.category_map
                } else {
                    post == pre
                },
                _ => post == pre,
            }
        })
        &&& ({
            pre.mode is Popup ==> match pre.popup {
                None => true,
                Some(f0) => {
                    let f1 = form_step(f0@, key).0;
                    match form_step(f0@, key).1 {
                        FormStep::Pending => {
                            &&& post.mode is Popup
                            &&& match post.popup {
                                Some(f) => f@ == f1,
                                None => false,
                            }
                            &&& post.items == pre.items
                            &&& post.filtered_items == pre.filtered_items
                            &&& post.cursor == pre.cursor
                            &&& post.search == pre.search
                            &&& post.title_map == pre.title_map
                            &&& post.category_map == pre.category_map
                        },
                        FormStep::Cancelled => {
                            &&& post.mode is Normal
                            &&& post.popup is None
                            &&& post.items == pre.items
                            &&& post.filtered_items == pre.filtered_items
                            &&& post.cursor == pre.cursor
                            &&& post.search == pre.search
                            &&& post.title_map == pre.title_map
                            &&& post.category_map == pre.category_map
                        },
                        FormStep::Committed(t) => {
                            &&& post.mode is Normal
                            &&& post.popup is None
                            &&& post.items.deep_view() == commit_items(
                                pre.items.deep_view(),
                                pre.title_map@,
                                pre.category_map@,
                                t,
                            )
                            &&& post.title_map@ == commit_titles(
                                pre.title_map@,
                                pre.items.deep_view()[first_index_with_id(
                                    pre.items.deep_view(),
                                    t.id,
                                )].title,
                                t.title,
                            )
                            &&& post.category_map@ == commit_cats(
                                pre.category_map@,
                                t,
                            )
                            &&& post.filtered_items == pre.filtered_items
                            &&& post.cursor == pre.cursor
                            &&& post.search == pre.search
                        },
                    }
                },
            }
        })
        &&& ({
            pre.mode is Ordering ==> {
                &&& post.mode is Normal
                &&& post.popup == pre.popup
                &&& post.filtered_items == pre.filtered_items
                &&& post.search == pre.search
                &&& post.title_map == pre.title_map
                &&& post.category_map == pre.category_map
                &&& match chosen_sort(key) {
                    Some(k) => post.items.deep_view() == sort_spec(
                        k,
                        pre.items.deep_view(),
                    ) && post.cursor == 0,
                    None => post.items == pre.items && post.cursor == pre.cursor,
                }
            }
        })
        &&& ({
            pre.mode is Search ==> {
                &&& post.cursor == 0
                &&& post.items == pre.items
                &&& post.popup == pre.popup
                &&& post.title_map == pre.title_map
                &&& post.category_map == pre.category_map
                &&& post.search.max_length == pre.search.max_length
                &&& match key {
                    Key::Enter => post.mode is Searched && post.search.value@.len()
                        == 0 && post.filtered_items == pre.filtered_items,
                    Key::Esc => post.mode is Normal && post.search.value@.len() == 0
                        && post.filtered_items == pre.filtered_items,
                    _ => {
                        &&& post.mode is Search
                        &&& post.search.value@ == string_field_step(
                            pre.search.value@,
                            pre.search.max_length as nat,
                            key,
                        )
                        &&& post.filtered_items.deep_view() == filter_by_query(
                            pre.items.deep_view(),
                            post.search.value@,
                        )
                    },
                }
            }
        })
        &&& ({
            pre.mode is Searched ==> match key {
                Key::Esc => post.switched_mode(&pre, TableMode::Normal),
                Key::Enter => if pre.displayed().len() > 0 {
                    &&& post.mode is Popup
                    &&& match post.popup {
                        Some(f) => f@ == form_init(pre.displayed()[pre.cursor as int]),
                        None => false,
                    }
                    &&& post.items == pre.items
                    &&& post.filtered_items == pre.filtered_items
                    &&& post.cursor == pre.cursor
                    &&& post.search == pre.search
                    &&& post.title_map == pre.title_map
                    &&& post.category_map == pre.category_map
                } else {
                    post == pre
                },
                Key::Down => post.stepped_cursor(&pre, true),
                Key::Up => post.stepped_cursor(&pre, false),
                Key::Char(c) => if c == 'k' {
                    post.stepped_cursor(&pre, true)
                } else if c == 'l' {
                    post.stepped_cursor(&pre, false)
                } else {
                    post == pre
                },
                _ => post == pre,
            }
        })
        &&& ({
            pre.mode is Help ==> post.switched_mode(&pre, TableMode::Normal)
        })
}

/// The interactive table component.
pub struct TableComponent {
    /// The master transaction list.
    pub items: Vec<Transaction>,
    /// The filtered view; meaningful in the searching modes.
    pub filtered_items: Vec<Transaction>,
    /// The selected row, an index into the displayed list.
    pub cursor: usize,
    /// The active interaction state.
    pub mode: TableMode,
    /// The edit form; present exactly in `Popup` mode.
    pub popup: Option<PopupForm>,
    /// The live search query.
    pub search: StringField,
    /// Remembered renames: previous title fragment to canonical title.
    pub title_map: FieldMap<String>,
    /// Learned categorization: title fragment to category.
    pub category_map: FieldMap<Category>,
}

impl TableComponent {
    /// The list the cursor moves over: the filtered view while
    /// searching, the master list otherwise.
    pub open spec fn displayed(&self) -> Seq<TransactionV> {
        match self.mode {
            TableMode::Search => self.filtered_items.deep_view(),
            TableMode::Searched => self.filtered_items.deep_view(),
            _ => self.items.deep_view(),
        }
    }

    /// The component's internal invariant: the maps are well formed,
    /// the cursor stays on the displayed list, the filtered view never
    /// outgrows the master list and (while searching) holds exactly the
    /// rows matching the live query, the edit form exists exactly in
    /// `Popup` mode and edits a row of the master list, and the query
    /// buffer is empty outside `Search` mode.
    pub open spec fn wf(&self) -> bool {
        &&& self.title_map.wf()
        &&& self.category_map.wf()
        &&& (self.displayed().len() == 0 ==> self.cursor == 0)
        &&& (self.displayed().len() > 0 ==> (self.cursor as int) < self.displayed().len())
        &&& self.filtered_items@.len() <= self.items@.len()
        &&& (self.mode is Popup <==> self.popup is Some)
        &&& (match self.popup {
            Some(f) => exists|j: int|
                0 <= j < self.items.deep_view().len() && (#[trigger] self.items.deep_view()[j]).id
                    == f.transaction.id,
            None => true,
        })
        &&& ((self.mode is Search || self.mode is Searched) ==> forall|i: int|
            0 <= i < self.filtered_items.deep_view().len() ==> self.items.deep_view().contains(
                #[trigger] self.filtered_items.deep_view()[i],
            ))
        &&& (!(self.mode is Search) ==> self.search.value@.len() == 0)
        &&& self.search.max_length == SEARCH_MAX_LEN
        &&& (self.mode is Search ==> self.filtered_items.deep_view() == filter_by_query(
            self.items.deep_view(),
            self.search.value@,
        ))
    }

    /// A table over `transactions`: both lists hold them, the cursor is
    /// on the first row, the mode is `Normal`, the category map is the
    /// built-in dictionary and the alias map is empty.
    pub fn new(transactions: &Vec<Transaction>) -> (r: Self)
        ensures
            r.items.deep_view() == transactions.deep_view(),
            r.filtered_items.deep_view() == transactions.deep_view(),
            r.cursor == 0,
            r.mode == TableMode::Normal,
            r.popup is None,
            r.search.value@.len() == 0,
            r.title_map@ == Seq::<(Seq<char>, Seq<char>)>::empty(),
            r.category_map@ == FieldMap::<Category>::builtin_entries(),
            r.wf(),
    {
        let empty = String::new();
        let r = TableComponent {
            items: clone_transactions(transactions),
            filtered_items: clone_transactions(transactions),
            cursor: 0,
            mode: TableMode::Normal,
            popup: None,
            search: StringField::new(&empty, SEARCH_MAX_LEN),
            title_map: FieldMap::<String>::new(),
            category_map: FieldMap::<Category>::new(),
        };
        proof {
            lemma_vec_deep_view(&r.items);
            lemma_vec_deep_view(&r.filtered_items);
        }
        r
    }

    /// Replace the learned categorization map.
    pub fn set_categories(&mut self, category_map: FieldMap<Category>)
        requires
            category_map.wf(),
        ensures
            final(self).category_map == category_map,
            final(self).items == old(self).items,
            final(self).filtered_items == old(self).filtered_items,
            final(self).cursor == old(self).cursor,
            final(self).mode == old(self).mode,
            final(self).popup == old(self).popup,
            final(self).search == old(self).search,
            final(self).title_map == old(self).title_map,
            old(self).wf() ==> final(self).wf(),
    {
        self.category_map = category_map;
    }

    /// Borrow the learned categorization map, for persistence.
    pub fn get_categories(&self) -> (r: &FieldMap<Category>)
        ensures
            *r == self.category_map,
    {
        &self.category_map
    }

    /// Replace the title alias map.
    pub fn set_titlemap(&mut self, title_map: FieldMap<String>)
        requires
            title_map.wf(),
        ensures
            final(self).title_map == title_map,
            final(self).items == old(self).items,
            final(self).filtered_items == old(self).filtered_items,
            final(self).cursor == old(self).cursor,
            final(self).mode == old(self).mode,
            final(self).popup == old(self).popup,
            final(self).search == old(self).search,
            final(self).category_map == old(self).category_map,
            old(self).wf() ==> final(self).wf(),
    {
        self.title_map = title_map;
    }

    /// Borrow the title alias map, for persistence.
    pub fn get_titlemap(&self) -> (r: &FieldMap<String>)
        ensures
            *r == self.title_map,
    {
        &self.title_map
    }

    /// The number of rows the cursor moves over.
    fn displayed_len(&self) -> (r: usize)
        ensures
            r == self.displayed().len(),
    {
        proof {
            lemma_vec_deep_view(&self.items);
            lemma_vec_deep_view(&self.filtered_items);
        }
        match self.mode {
            TableMode::Search => self.filtered_items.len(),
            TableMode::Searched => self.filtered_items.len(),
            _ => self.items.len(),
        }
    }

    /// Move the selection one row down in the displayed list, wrapping
    /// to the top; a no-op on an empty list.
    pub fn next_row(&mut self)
        ensures
            final(self).cursor == cursor_next(
                old(self).cursor as int,
                old(self).displayed().len() as int,
            ),
            final(self).items == old(self).items,
            final(self).filtered_items == old(self).filtered_items,
            final(self).mode == old(self).mode,
            final(self).popup == old(self).popup,
            final(self).search == old(self).search,
            final(self).title_map == old(self).title_map,
            final(self).category_map == old(self).category_map,
            old(self).wf() ==> final(self).wf(),
    {
        let len = self.displayed_len();
        if len == 0 {
            return ;
        }
        if self.cursor >= len - 1 {
            self.cursor = 0;
        } else {
            self.cursor = self.cursor + 1;
        }
    }

    /// Move the selection one row up in the displayed list, wrapping to
    /// the bottom; a no-op on an empty list.
    pub fn previous_row(&mut self)
        ensures
            final(self).cursor == cursor_previous(
                old(self).cursor as int,
                old(self).displayed().len() as int,
            ),
            final(self).items == old(self).items,
            final(self).filtered_items == old(self).filtered_items,
            final(self).mode == old(self).mode,
            final(self).popup == old(self).popup,
            final(self).search == old(self).search,
            final(self).title_map == old(self).title_map,
            final(self).category_map == old(self).category_map,
            old(self).wf() ==> final(self).wf(),
    {
        let len = self.displayed_len();
        if len == 0 {
            return ;
        }
        if self.cursor == 0 {
            self.cursor = len - 1;
        } else {
            self.cursor = self.cursor - 1;
        }
    }

    /// The selected row.
    pub fn get_current_row(&self) -> (r: Transaction)
        requires
            self.displayed().len() > 0,
            (self.cursor as int) < self.displayed().len(),
        ensures
            r@ == self.displayed()[self.cursor as int],
    {
        proof {
            lemma_vec_deep_view(&self.items);
            lemma_vec_deep_view(&self.filtered_items);
        }
        match self.mode {
            TableMode::Search => self.filtered_items[self.cursor].clone(),
            TableMode::Searched => self.filtered_items[self.cursor].clone(),
            _ => self.items[self.cursor].clone(),
        }
    }

    /// Whether the table claims all key input (any mode but `Normal`).
    pub fn is_blocking(&self) -> (r: bool)
        ensures
            r == (self.mode != TableMode::Normal),
    {
        self.mode != TableMode::Normal
    }

    /// Recompute the filtered view: the rows of the master list whose
    /// titles contain `substring`, case-insensitively, and reset the
    /// cursor to the first row.
    fn search_items(&mut self, substring: &String)
        ensures
            final(self).filtered_items.deep_view() == filter_by_query(
                old(self).items.deep_view(),
                substring@,
            ),
            final(self).cursor == 0,
            final(self).items == old(self).items,
            final(self).mode == old(self).mode,
            final(self).popup == old(self).popup,
            final(self).search == old(self).search,
            final(self).title_map == old(self).title_map,
            final(self).category_map == old(self).category_map,
    {
        let ghost m0 = self.items.deep_view();
        let needle = to_lower(substring.as_str());
        let mut out: Vec<Transaction> = Vec::new();
        let n = self.items.len();
        proof {
            lemma_vec_deep_view(&self.items);
            assert(m0.take(0) =~= Seq::<TransactionV>::empty());
            assert(out.deep_view() =~= filter_by_query(m0.take(0), substring@));
        }
        let mut i: usize = 0;
        while i < n
            invariant
                i <= n,
                n == self.items@.len(),
                m0 == self.items.deep_view(),
                m0.len() == n,
                needle@ == lower(substring@),
                out.deep_view() =~= filter_by_query(m0.take(i as int), substring@),
            decreases n - i,
        {
            proof {
                lemma_vec_deep_view(&self.items);
                assert(m0.take(i + 1).drop_last() =~= m0.take(i as int));
                assert(m0.take(i + 1).last() == m0[i as int]);
            }
            let lowered = to_lower(self.items[i].title.as_str());
            if contains_sub(lowered.as_str(), needle.as_str()) {
                let ghost pre = out.deep_view();
                out.push(self.items[i].clone());
                proof {
                    lemma_vec_deep_view(&out);
                    assert(out.deep_view() =~= pre.push(m0[i as int]));
                    assert(pre + seq![m0[i as int]] =~= pre.push(m0[i as int]));
                    assert(title_matches(m0[i as int], substring@));
                    assert(out.deep_view() =~= filter_by_query(m0.take(i + 1), substring@));
                }
            } else {
                proof {
                    assert(!title_matches(m0[i as int], substring@));
                    assert(out.deep_view() =~= filter_by_query(m0.take(i + 1), substring@));
                }
            }
            i += 1;
        }
        proof {
            assert(m0.take(n as int) =~= m0);
        }
        self.filtered_items = out;
        self.cursor = 0;
    }

    /// Sort the master list by the chosen ordering and select the first
    /// row.
    fn sort_items(&mut self, sort_option: SortOptions)
        ensures
            final(self).items.deep_view() == sort_spec(sort_option, old(self).items.deep_view()),
            final(self).cursor == 0,
            final(self).filtered_items == old(self).filtered_items,
            final(self).mode == old(self).mode,
            final(self).popup == old(self).popup,
            final(self).search == old(self).search,
            final(self).title_map == old(self).title_map,
            final(self).category_map == old(self).category_map,
    {
        sort_transactions(&mut self.items, sort_option);
        self.cursor = 0;
    }

    /// The normalization pass: replace every row's title by its recorded
    /// alias, if any, then re-derive every row's category from the
    /// learning map.
    pub fn update_transactions(&mut self)
        ensures
            final(self).items.deep_view() == normalized(
                old(self).items.deep_view(),
                old(self).title_map@,
                old(self).category_map@,
            ),
            final(self).filtered_items == old(self).filtered_items,
            final(self).cursor == old(self).cursor,
            final(self).mode == old(self).mode,
            final(self).popup == old(self).popup,
            final(self).search == old(self).search,
            final(self).title_map == old(self).title_map,
            final(self).category_map == old(self).category_map,
    {
        let ghost m0 = self.items.deep_view();
        let ghost titles = self.title_map@;
        let ghost cats = self.category_map@;
        let n = self.items.len();
        proof {
            lemma_vec_deep_view(&self.items);
        }
        let mut i: usize = 0;
        while i < n
            invariant
                i <= n,
                n == self.items@.len(),
                self.items.deep_view().len() == n,
                m0.len() == n,
                titles == self.title_map@,
                cats == self.category_map@,
                self.title_map == old(self).title_map,
                self.category_map == old(self).category_map,
                self.filtered_items == old(self).filtered_items,
                self.cursor == old(self).cursor,
                self.mode == old(self).mode,
                self.popup == old(self).popup,
                self.search == old(self).search,
                forall|j: int|
                    0 <= j < i ==> #[trigger] self.items.deep_view()[j] == normalize_tx(
                        m0[j],
                        titles,
                        cats,
                    ),
                forall|j: int| i <= j < n ==> #[trigger] self.items.deep_view()[j] == m0[j],
            decreases n - i,
        {
            let ghost pre_dv = self.items.deep_view();
            let ghost pre_sq = self.items@;
            proof {
                lemma_vec_deep_view(&self.items);
            }
            let mut t = self.items[i].clone();
            proof {
                assert(t@ == pre_dv[i as int]);
                assert(t@ == m0[i as int]);
            }
            match self.title_map.get(&t.title) {
                Some(nt) => {
                    t.title = nt.clone();
                },
                None => {},
            }
            match self.category_map.get(&t.title) {
                Some(c) => {
                    t.group = Some(*c);
                },
                None => {
                    t.group = None;
                },
            }
            proof {
                assert(t@ == normalize_tx(m0[i as int], titles, cats));
            }
            self.items[i] = t;
            proof {
                lemma_vec_deep_view(&self.items);
                assert(forall|j: int| 0 <= j < n && j != i ==> self.items@[j] == pre_sq[j]);
                assert forall|j: int|
                    0 <= j < i + 1 implies #[trigger] self.items.deep_view()[j] == normalize_tx(
                    m0[j],
                    titles,
                    cats,
                ) by {
                    if j < i {
                        assert(self.items.deep_view()[j] == self.items@[j]@);
                        assert(pre_dv[j] == pre_sq[j]@);
                        assert(pre_dv[j] == normalize_tx(m0[j], titles, cats));
                    } else {
                        assert(self.items.deep_view()[j] == t@);
                    }
                }
                assert forall|j: int|
                    i + 1 <= j < n implies #[trigger] self.items.deep_view()[j] == m0[j] by {
                    assert(self.items.deep_view()[j] == self.items@[j]@);
                    assert(pre_dv[j] == pre_sq[j]@);
                    assert(pre_dv[j] == m0[j]);
                }
            }
            i += 1;
        }
        proof {
            lemma_vec_deep_view(&self.items);
            assert(self.items.deep_view() =~= normalized(m0, titles, cats));
        }
    }

    /// Apply a confirmed edit (the commit algorithm): record the new
    /// title's category in the learning map, rename every row that
    /// shares the edited row's previous title, remember the rename as a
    /// title alias, and re-run the normalization pass over the whole
    /// list.
    pub fn set_current_row(&mut self, transaction: &Transaction)
        requires
            old(self).title_map.wf(),
            old(self).category_map.wf(),
            first_index_with_id(old(self).items.deep_view(), transaction.id) >= 0,
        ensures
            final(self).category_map@ == commit_cats(old(self).category_map@, transaction@),
            final(self).title_map@ == commit_titles(
                old(self).title_map@,
                old(self).items.deep_view()[first_index_with_id(
                    old(self).items.deep_view(),
                    transaction.id,
                )].title,
                transaction.title@,
            ),
            final(self).items.deep_view() == commit_items(
                old(self).items.deep_view(),
                old(self).title_map@,
                old(self).category_map@,
                transaction@,
            ),
            final(self).title_map.wf(),
            final(self).category_map.wf(),
            final(self).filtered_items == old(self).filtered_items,
            final(self).cursor == old(self).cursor,
            final(self).mode == old(self).mode,
            final(self).popup == old(self).popup,
            final(self).search == old(self).search,
    {
        let ghost m0 = self.items.deep_view();
        let ghost idx = first_index_with_id(m0, transaction.id);
        proof {
            lemma_first_index_with_id(m0, transaction.id);
            lemma_vec_deep_view(&self.items);
        }
        self.category_map.insert(&transaction.title, transaction.group);
        // find the edited row's previous title
        let n = self.items.len();
        let mut p: usize = 0;
        while p < n && self.items[p].id != transaction.id
            invariant
                p <= n,
                n == self.items@.len(),
                m0 == self.items.deep_view(),
                m0.len() == n,
                forall|j: int| 0 <= j < n ==> #[trigger] m0[j] == self.items@[j]@,
                forall|j: int| 0 <= j < p ==> (#[trigger] m0[j]).id != transaction.id,
                idx >= 0,
                idx == first_index_with_id(m0, transaction.id),
                m0[idx].id == transaction.id,
                forall|j: int| 0 <= j < idx ==> (#[trigger] m0[j]).id != transaction.id,
            decreases n - p,
        {
            p += 1;
        }
        proof {
            if p < n {
                assert(self.items@[p as int].id == transaction.id);
                assert(m0[p as int].id == transaction.id);
            } else {
                assert(m0[idx].id != transaction.id);
                assert(false);
            }
            assert(p as int == idx);
        }
        let ot = self.items[p].title.clone();
        proof {
            assert(ot@ == m0[idx].title);
        }
        // rename every row sharing the previous title
        let mut j: usize = 0;
        while j < n
            invariant
                j <= n,
                n == self.items@.len(),
                self.items.deep_view().len() == n,
                ot@ == m0[idx].title,
                forall|k: int|
                    0 <= k < j ==> #[trigger] self.items.deep_view()[k] == (if m0[k].title == ot@ {
                        TransactionV { title: transaction.title@, ..m0[k] }
                    } else {
                        m0[k]
                    }),
                forall|k: int| j <= k < n ==> #[trigger] self.items.deep_view()[k] == m0[k],
                self.filtered_items == old(self).filtered_items,
                self.cursor == old(self).cursor,
                self.mode == old(self).mode,
                self.popup == old(self).popup,
                self.search == old(self).search,
                self.title_map == old(self).title_map,
                self.category_map@ == commit_cats(old(self).category_map@, transaction@),
                self.category_map.wf(),
            decreases n - j,
        {
            let ghost pre_dv = self.items.deep_view();
            let ghost pre_sq = self.items@;
            proof {
                lemma_vec_deep_view(&self.items);
                assert(pre_dv[j as int] == m0[j as int]);
            }
            if self.items[j].title == ot {
                proof {
                    assert(m0[j as int].title == ot@);
                }
                let mut t = self.items[j].clone();
                t.title = transaction.title.clone();
                proof {
                    assert(t@ == TransactionV { title: transaction.title@, ..m0[j as int] });
                }
                self.items[j] = t;
                proof {
                    lemma_vec_deep_view(&self.items);
                    assert(forall|k: int| 0 <= k < n && k != j ==> self.items@[k] == pre_sq[k]);
                    assert forall|k: int|
                        0 <= k < j + 1 implies #[trigger] self.items.deep_view()[k] == (if m0[k].title
                        == ot@ {
                        TransactionV { title: transaction.title@, ..m0[k] }
                    } else {
                        m0[k]
                    }) by {
                        if k < j {
                            assert(self.items.deep_view()[k] == self.items@[k]@);
                            assert(pre_dv[k] == pre_sq[k]@);
                        } else {
                            assert(self.items.deep_view()[k] == t@);
                        }
                    }
                    assert forall|k: int|
                        j + 1 <= k < n implies #[trigger] self.items.deep_view()[k] == m0[k] by {
                        assert(self.items.deep_view()[k] == self.items@[k]@);
                        assert(pre_dv[k] == pre_sq[k]@);
                    }
                }
            } else {
                proof {
                    assert(m0[j as int].title != ot@);
                    assert(self.items.deep_view()[j as int] == m0[j as int]);
                }
            }
            j += 1;
        }
        proof {
            assert(self.items.deep_view() =~= retitled(m0, ot@, transaction.title@));
        }
        // remember the rename
        self.title_map.insert(&ot, Some(transaction.title.clone()));
        // re-derive every row from the updated maps
        self.update_transactions();
        proof {
            assert(self.items.deep_view() =~= commit_items(
                m0,
                old(self).title_map@,
                old(self).category_map@,
                transaction@,
            ));
        }
    }

    /// Dispatch one key press according to the active mode.
    ///
    /// Normal: Enter opens the edit form on the selected row; `k`/Down
    /// and `l`/Up move the cursor; `o`, `?` and `/` switch to the
    /// ordering menu, the help overlay and the live search. Popup: the
    /// key goes to the form; a commit is applied to the list and the
    /// maps, a cancel is discarded; either returns to Normal. Ordering:
    /// one keystroke picks one of the six sorts (or none) and returns to
    /// Normal. Search: typing narrows the filtered view live; Enter
    /// keeps it, Escape discards it. Searched: like Normal over the
    /// filtered view, Escape returns to the full list. Help: any key
    /// returns to Normal.
    pub fn handle_key_events(&mut self, key: Key)
        requires
            old(self).wf(),
        ensures
            final(self).wf(),
            table_steps(*old(self), *final(self), key),

    {
        match self.mode {
            TableMode::Normal => match key {
                Key::Enter => {
                    self.open_popup_on_selection();
                },
                Key::Down => self.next_row(),
                Key::Up => self.previous_row(),
                Key::Char(c) => {
                    if c == 'k' {
                        self.next_row();
                    } else if c == 'l' {
                        self.previous_row();
                    } else if c == 'o' {
                        self.mode = TableMode::Ordering;
                    } else if c == '?' {
                        self.mode = TableMode::Help;
                    } else if c == '/' {
                        self.filtered_items = clone_transactions(&self.items);
                        self.mode = TableMode::Search;
                        proof {
                            lemma_filter_empty_query(self.items.deep_view());
                            assert(self.search.value@ =~= Seq::<char>::empty());
                            assert forall|i: int|
                                0 <= i < self.filtered_items.deep_view().len() implies self.items.deep_view().contains(
                                #[trigger] self.filtered_items.deep_view()[i],
                            ) by {
                                assert(self.items.deep_view()[i]
                                    == self.filtered_items.deep_view()[i]);
                            }
                        }
                    }
                },
                _ => {},
            },
            TableMode::Popup => {
                let outcome = match &mut self.popup {
                    Some(f) => f.handle_key_event(key),
                    None => FormOutcome::Pending,
                };
                match outcome {
                    FormOutcome::Pending => {},
                    FormOutcome::Cancelled => {
                        self.popup = None;
                        self.mode = TableMode::Normal;
                    },
                    FormOutcome::Committed(t) => {
                        self.popup = None;
                        proof {
                            lemma_first_index_with_id(self.items.deep_view(), t.id);
                        }
                        self.set_current_row(&t);
                        self.mode = TableMode::Normal;
                    },
                }
            },
            TableMode::Ordering => {
                match key {
                    Key::Char(c) => {
                        if c == 'd' {
                            self.apply_sort(SortOptions::DateAsc);
                        } else if c == 'D' {
                            self.apply_sort(SortOptions::DateDesc);
                        } else if c == 't' {
                            self.apply_sort(SortOptions::TitleAsc);
                        } else if c == 'T' {
                            self.apply_sort(SortOptions::TitleDesc);
                        } else if c == 'a' {
                            self.apply_sort(SortOptions::AmountAsc);
                        } else if c == 'A' {
                            self.apply_sort(SortOptions::AmountDesc);
                        }
                    },
                    _ => {},
                }
                self.mode = TableMode::Normal;
            },
            TableMode::Search => {
                self.cursor = 0;
                match key {
                    Key::Enter => {
                        self.mode = TableMode::Searched;
                        self.search.clear_value();
                        proof {
                            lemma_filter_subsequence(
                                old(self).items.deep_view(),
                                old(self).search.value@,
                            );
                        }
                    },
                    Key::Esc => {
                        self.mode = TableMode::Normal;
                        self.search.clear_value();
                    },
                    _ => {
                        self.search.handle_key_event(key);
                        let q = self.search.get_value();
                        self.search_items(&q);
                        proof {
                            lemma_filter_subsequence(self.items.deep_view(), q@);
                        }
                    },
                }
            },
            TableMode::Searched => match key {
                Key::Esc => {
                    self.mode = TableMode::Normal;
                },
                Key::Enter => {
                    self.open_popup_on_selection();
                },
                Key::Down => self.next_row(),
                Key::Up => self.previous_row(),
                Key::Char(c) => {
                    if c == 'k' {
                        self.next_row();
                    } else if c == 'l' {
                        self.previous_row();
                    }
                },
                _ => {},
            },
            TableMode::Help => {
                self.mode = TableMode::Normal;
            },
        }
    }

    /// Only the cursor moved, one step in the given direction.
    pub open spec fn stepped_cursor(&self, pre: &Self, forward: bool) -> bool {
        &&& self.cursor as int == if forward {
            cursor_next(pre.cursor as int, pre.displayed().len() as int)
        } else {
            cursor_previous(pre.cursor as int, pre.displayed().len() as int)
        }
        &&& self.items == pre.items
        &&& self.filtered_items == pre.filtered_items
        &&& self.mode == pre.mode
        &&& self.popup == pre.popup
        &&& self.search == pre.search
        &&& self.title_map == pre.title_map
        &&& self.category_map == pre.category_map
    }

    /// Only the mode changed, to `m`.
    pub open spec fn switched_mode(&self, pre: &Self, m: TableMode) -> bool {
        &&& self.mode == m
        &&& self.items == pre.items
        &&& self.filtered_items == pre.filtered_items
        &&& self.cursor == pre.cursor
        &&& self.popup == pre.popup
        &&& self.search == pre.search
        &&& self.title_map == pre.title_map
        &&& self.category_map == pre.category_map
    }

    /// Open the edit form on the selected row and switch to `Popup`
    /// mode; a no-op when the displayed list is empty.
    fn open_popup_on_selection(&mut self)
        requires
            old(self).wf(),
            old(self).mode is Normal || old(self).mode is Searched,
        ensures
            final(self).wf(),
            old(self).displayed().len() > 0 ==> {
                &&& final(self).mode is Popup
                &&& match final(self).popup {
                    Some(f) => f@ == form_init(old(self).displayed()[old(self).cursor as int]),
                    None => false,
                }
                &&& final(self).items == old(self).items
                &&& final(self).filtered_items == old(self).filtered_items
                &&& final(self).cursor == old(self).cursor
                &&& final(self).search == old(self).search
                &&& final(self).title_map == old(self).title_map
                &&& final(self).category_map == old(self).category_map
            },
            old(self).displayed().len() == 0 ==> *final(self) == *old(self),
    {
        let len = self.displayed_len();
        if len == 0 {
            return ;
        }
        let row = self.get_current_row();
        let ghost rowv = row@;
        self.popup = Some(PopupForm::new(row));
        let ghost pre_mode = self.mode;
        self.mode = TableMode::Popup;
        proof {
            if pre_mode is Searched {
                assert(self.items.deep_view().contains(rowv));
                let w = choose|w: int|
                    0 <= w < self.items.deep_view().len() && self.items.deep_view()[w] == rowv;
                assert(self.items.deep_view()[w].id == rowv.id);
            } else {
                assert(self.items.deep_view()[old(self).cursor as int].id == rowv.id);
            }
        }
    }

    /// Sort the master list and select the first row, keeping the
    /// filtered view inside bounds.
    fn apply_sort(&mut self, k: SortOptions)
        requires
            old(self).wf(),
            old(self).mode is Ordering,
        ensures
            final(self).wf(),
            final(self).items.deep_view() == sort_spec(k, old(self).items.deep_view()),
            final(self).cursor == 0,
            final(self).mode == old(self).mode,
            final(self).popup == old(self).popup,
            final(self).filtered_items == old(self).filtered_items,
            final(self).search == old(self).search,
            final(self).title_map == old(self).title_map,
            final(self).category_map == old(self).category_map,
    {
        self.sort_items(k);
        proof {
            crate::sort::lemma_sort_spec_sorted(k, old(self).items.deep_view());
            lemma_vec_deep_view(&self.items);
            lemma_vec_deep_view(&self.filtered_items);
        }
    }
}

/// Repeated cursor steps, for stating the cyclic law.
pub open spec fn cursor_iterate(c: int, len: int, n: nat) -> int
    decreases n,
{
    if n == 0 {
        c
    } else {
        cursor_next(cursor_iterate(c, len, (n - 1) as nat), len)
    }
}

/// After `n` forward steps the cursor sits `n` past its start, modulo
/// the list length.
proof fn lemma_cursor_iterate_mod(c: int, len: int, n: nat)
    requires
        0 < len,
        0 <= c < len,
    ensures
        cursor_iterate(c, len, n) == (c + n) % len,
    decreases n,
{
    if len == 1 {
        vstd::arithmetic::div_mod::lemma_mod_multiples_basic(c + n, len);
        if n > 0 {
            lemma_cursor_iterate_mod(c, len, (n - 1) as nat);
        }
    } else if n == 0 {
        vstd::arithmetic::div_mod::lemma_small_mod(c as nat, len as nat);
    } else {
        lemma_cursor_iterate_mod(c, len, (n - 1) as nat);
        let r = (c + n - 1) % len;
        vstd::arithmetic::div_mod::lemma_mod_bound(c + n - 1, len);
        vstd::arithmetic::div_mod::lemma_add_mod_noop(c + n - 1, 1, len);
        vstd::arithmetic::div_mod::lemma_small_mod(1nat, len as nat);
        if r + 1 == len {
            vstd::arithmetic::div_mod::lemma_mod_self_0(len);
            assert((r + 1) % len == 0);
        } else {
            vstd::arithmetic::div_mod::lemma_small_mod((r + 1) as nat, len as nat);
        }
        assert((c + n) % len == (r + 1) % len);
    }
}

/// On a non-empty list, stepping the cursor forward once per row walks
/// the whole cycle and returns to the starting row.
pub proof fn lemma_cursor_cycle(c: int, len: int)
    requires
        0 < len,
        0 <= c < len,
    ensures
        cursor_iterate(c, len, len as nat) == c,
{
    lemma_cursor_iterate_mod(c, len, len as nat);
    vstd::arithmetic::div_mod::lemma_mod_add_multiples_vanish(c, len);
    vstd::arithmetic::div_mod::lemma_small_mod(c as nat, len as nat);
}

/// While searching, the filtered view is a subsequence of the master
/// list, every shown row's title contains the query, and an empty query
/// shows the full list.
pub proof fn lemma_search_view(t: &TableComponent)
    requires
        t.wf(),
        t.mode is Search,
    ensures
        is_subsequence_of(t.filtered_items.deep_view(), t.items.deep_view()),
        forall|i: int|
            0 <= i < t.filtered_items.deep_view().len() ==> title_matches(
                #[trigger] t.filtered_items.deep_view()[i],
                t.search.value@,
            ),
        t.search.value@.len() == 0 ==> t.filtered_items.deep_view() == t.items.deep_view(),
{
    lemma_filter_subsequence(t.items.deep_view(), t.search.value@);
    if t.search.value@.len() == 0 {
        assert(t.search.value@ =~= Seq::<char>::empty());
        lemma_filter_empty_query(t.items.deep_view());
    }
}

/// Commit propagation: after a commit that renames the edited row's
/// title, every row that shared that title — the edited row and any
/// untouched row alike — shows the new title and resolves to the newly
/// recorded category. Holds whenever no remembered alias fragment
/// occurs inside the new title (such an alias would rename it again).
pub proof fn lemma_commit_propagates(
    items: Seq<TransactionV>,
    titles: Seq<(Seq<char>, Seq<char>)>,
    cats: Seq<(Seq<char>, Category)>,
    edited: TransactionV,
    j: int,
)
    requires
        0 <= first_index_with_id(items, edited.id) < items.len(),
        0 <= j < items.len(),
        items[j].title == items[first_index_with_id(items, edited.id)].title,
        edited.group is Some,
        map_lookup(
            commit_titles(titles, items[first_index_with_id(items, edited.id)].title, edited.title),
            edited.title,
        ) is None,
    ensures
        match edited.group {
            Some(c) => commit_items(items, titles, cats, edited)[j] == TransactionV {
                title: edited.title,
                group: Some(c),
                ..items[j]
            },
            None => false,
        },
{
    let i = first_index_with_id(items, edited.id);
    let ot = items[i].title;
    let nt = edited.title;
    let c = match edited.group {
        Some(c) => c,
        None => arbitrary(),
    };
    let r1 = retitled(items, ot, nt);
    assert(r1[j] == TransactionV { title: nt, ..items[j] });
    let titles1 = commit_titles(titles, ot, nt);
    let cats1 = commit_cats(cats, edited);
    let result = commit_items(items, titles, cats, edited);
    assert(result[j] == normalize_tx(r1[j], titles1, cats1));
    assert(map_lookup(titles1, nt) is None);
    crate::text::lemma_contains_self(lower(nt));
    assert(cats1 == map_insert(cats, lower(nt), c));
    assert(cats1[0] == (lower(nt), c));
    assert(contains_seq(lower(nt), cats1[0].0));
    assert(map_lookup(cats1, nt) == Some(c));
    assert(result[j] == TransactionV { title: nt, group: Some(c), ..items[j] });
}

} // verus!
