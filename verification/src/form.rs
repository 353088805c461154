//! The modal edit form: a bounded text field for the title, a cyclic
//! selector for the category, and a confirmation control. Focus cycles
//! with Tab; Escape cancels; confirming commits only when the title is
//! long enough.

use vstd::prelude::*;

use crate::input::Key;
use crate::models::next_of;
use crate::models::previous_of;
use crate::models::Category;
use crate::models::Transaction;
use crate::models::TransactionV;
use crate::text::chars_to_string;

verus! {

/// Which part of the form receives ordinary keys.
#[derive(Clone, Copy, PartialEq, Eq, Structural, Debug)]
pub enum PopupFocus {
    Title,
    Category,
    Confirm,
}

/// The focus order: Title, then Category, then the confirm control,
/// then back to Title.
pub open spec fn focus_next(f: PopupFocus) -> PopupFocus {
    match f {
        PopupFocus::Title => PopupFocus::Category,
        PopupFocus::Category => PopupFocus::Confirm,
        PopupFocus::Confirm => PopupFocus::Title,
    }
}

impl PopupFocus {
    /// Step to the next field in the fixed focus order, wrapping.
    pub fn next(&self) -> (r: Self)
        ensures
            r == focus_next(*self),
    {
        match self {
            Self::Title => Self::Category,
            Self::Category => Self::Confirm,
            Self::Confirm => Self::Title,
        }
    }
}

impl Default for PopupFocus {
    /// A fresh form starts with the title focused.
    fn default() -> (r: Self)
        ensures
            r == PopupFocus::Title,
    {
        PopupFocus::Title
    }
}

/// What one key does to a bounded text field: characters are appended
/// while room remains and silently dropped beyond the bound; backspace
/// removes the last character; other keys change nothing.
pub open spec fn string_field_step(v: Seq<char>, max: nat, key: Key) -> Seq<char> {
    match key {
        Key::Char(c) => if v.len() < max {
            v.push(c)
        } else {
            v
        },
        Key::Backspace => if v.len() > 0 {
            v.drop_last()
        } else {
            v
        },
        _ => v,
    }
}

/// A bounded free-text input field.
pub struct StringField {
    /// The characters typed so far.
    pub value: Vec<char>,
    /// Characters typed beyond this bound are dropped.
    pub max_length: usize,
}

impl StringField {
    /// A field seeded with `value`; only keystrokes enforce the bound,
    /// so a longer seed is kept as it is.
    pub fn new(value: &String, max_length: usize) -> (r: Self)
        ensures
            r.value@ == value@,
            r.max_length == max_length,
    {
        let s = value.as_str();
        let n = s.unicode_len();
        let mut chars: Vec<char> = Vec::new();
        let mut i: usize = 0;
        while i < n
            invariant
                i <= n,
                n == s@.len(),
                chars@ =~= s@.subrange(0, i as int),
            decreases n - i,
        {
            chars.push(s.get_char(i));
            i += 1;
        }
        proof {
            assert(chars@ =~= value@);
        }
        StringField { value: chars, max_length }
    }

    /// Empty the field.
    pub fn clear_value(&mut self)
        ensures
            final(self).value@ == Seq::<char>::empty(),
            final(self).max_length == old(self).max_length,
    {
        self.value = Vec::new();
        proof {
            assert(self.value@ =~= Seq::<char>::empty());
        }
    }

    /// The current text.
    pub fn get_value(&self) -> (r: String)
        ensures
            r@ == self.value@,
    {
        chars_to_string(&self.value)
    }

    /// The number of characters held.
    pub fn len(&self) -> (r: usize)
        ensures
            r == self.value@.len(),
    {
        self.value.len()
    }

    /// Apply one keystroke.
    pub fn handle_key_event(&mut self, key: Key)
        ensures
            final(self).value@ == string_field_step(
                old(self).value@,
                old(self).max_length as nat,
                key,
            ),
            final(self).max_length == old(self).max_length,
    {
        match key {
            Key::Char(c) => {
                if self.value.len() < self.max_length {
                    self.value.push(c);
                }
            },
            Key::Backspace => {
                let _ = self.value.pop();
            },
            _ => {},
        }
    }
}

/// What one key does to the category selector: right and `;` step
/// forward, left and `j` step backward, both wrapping; other keys
/// change nothing.
pub open spec fn category_field_step(c: Category, key: Key) -> Category {
    match key {
        Key::Right => next_of(c),
        Key::Char(';') => next_of(c),
        Key::Left => previous_of(c),
        Key::Char('j') => previous_of(c),
        _ => c,
    }
}

/// A cyclic selector over the fixed category order.
pub struct CategoryField {
    /// The category currently shown.
    pub selected: Category,
}

impl CategoryField {
    /// A selector showing `value`.
    pub fn new(value: Category) -> (r: Self)
        ensures
            r.selected == value,
    {
        CategoryField { selected: value }
    }

    /// Apply one keystroke.
    pub fn handle_key_event(&mut self, key: Key)
        ensures
            final(self).selected == category_field_step(old(self).selected, key),
    {
        match key {
            Key::Right => self.selected = self.selected.next(),
            Key::Char(';') => self.selected = self.selected.next(),
            Key::Left => self.selected = self.selected.previous(),
            Key::Char('j') => self.selected = self.selected.previous(),
            _ => {},
        }
    }

    /// The category currently shown.
    pub fn value(&self) -> (r: Category)
        ensures
            r == self.selected,
    {
        self.selected
    }
}

/// A confirmed title must have at least this many characters.
pub const TITLE_MIN_LEN: usize = 3;

/// The title field's capacity: the popup is 60 cells wide, minus the
/// borders, the padding and the field label.
pub const TITLE_MAX_LEN: usize = 46;

/// The form's answer after one keystroke.
pub enum FormOutcome {
    /// Still editing.
    Pending,
    /// The user backed out; nothing is to be committed.
    Cancelled,
    /// The user confirmed this edited transaction.
    Committed(Transaction),
}

/// The transaction the form would commit: the original with the edited
/// title and the selected category, everything else untouched.
pub open spec fn edited_view(orig: TransactionV, title: Seq<char>, cat: Category) -> TransactionV {
    TransactionV { title, group: Some(cat), ..orig }
}

/// The mathematical state of the form.
#[verifier::ext_equal]
pub ghost struct FormV {
    pub focus: PopupFocus,
    pub title: Seq<char>,
    pub max_length: nat,
    pub category: Category,
    pub original: TransactionV,
}

/// The mathematical result of one form keystroke.
pub ghost enum FormStep {
    Pending,
    Cancelled,
    Committed(TransactionV),
}

/// The state a fresh form over `t` starts in.
pub open spec fn form_init(t: TransactionV) -> FormV {
    FormV {
        focus: PopupFocus::Title,
        title: t.title,
        max_length: TITLE_MAX_LEN as nat,
        category: match t.group {
            Some(c) => c,
            None => Category::Other,
        },
        original: t,
    }
}

/// The whole form as a transition function: what one keystroke does to
/// the form's state and what it answers.
pub open spec fn form_step(f: FormV, key: Key) -> (FormV, FormStep) {
    match key {
        Key::Tab => (FormV { focus: focus_next(f.focus), ..f }, FormStep::Pending),
        Key::Esc => (f, FormStep::Cancelled),
        _ => match f.focus {
            PopupFocus::Title => (
                FormV { title: string_field_step(f.title, f.max_length, key), ..f },
                FormStep::Pending,
            ),
            PopupFocus::Category => (
                FormV { category: category_field_step(f.category, key), ..f },
                FormStep::Pending,
            ),
            PopupFocus::Confirm => if key == Key::Enter && f.title.len() >= TITLE_MIN_LEN {
                (f, FormStep::Committed(edited_view(f.original, f.title, f.category)))
            } else {
                (f, FormStep::Pending)
            },
        },
    }
}

/// The outcome's mathematical value.
pub open spec fn outcome_view(r: FormOutcome) -> FormStep {
    match r {
        FormOutcome::Pending => FormStep::Pending,
        FormOutcome::Cancelled => FormStep::Cancelled,
        FormOutcome::Committed(t) => FormStep::Committed(t@),
    }
}

/// The modal editor for one transaction.
pub struct PopupForm {
    /// Which part receives ordinary keys.
    pub focus: PopupFocus,
    /// The title being edited.
    pub title: StringField,
    /// The category being selected.
    pub category: CategoryField,
    /// The unmodified transaction the form was opened on.
    pub transaction: Transaction,
}

impl View for PopupForm {
    type V = FormV;

    open spec fn view(&self) -> FormV {
        FormV {
            focus: self.focus,
            title: self.title.value@,
            max_length: self.title.max_length as nat,
            category: self.category.selected,
            original: self.transaction@,
        }
    }
}

impl PopupForm {
    /// A form over `transaction`, title field seeded with its title and
    /// the selector on its category (`Other` when it has none).
    pub fn new(transaction: Transaction) -> (r: Self)
        ensures
            r@ == form_init(transaction@),
    {
        let title = StringField::new(&transaction.title, TITLE_MAX_LEN);
        let category = CategoryField::new(
            match &transaction.group {
                Some(c) => *c,
                None => Category::Other,
            },
        );
        PopupForm { focus: PopupFocus::Title, title, category, transaction }
    }

    /// Whether the edited title is long enough to commit.
    pub fn validate_title(&self) -> (r: bool)
        ensures
            r == (self.title.value@.len() >= TITLE_MIN_LEN),
    {
        self.title.len() >= TITLE_MIN_LEN
    }

    /// The unmodified transaction the form was opened on.
    pub fn get_original_transaction(&self) -> (r: Transaction)
        ensures
            r@ == self.transaction@,
    {
        self.transaction.clone()
    }

    /// The transaction as edited so far.
    pub fn get_transaction(&self) -> (r: Transaction)
        ensures
            r@ == edited_view(self.transaction@, self.title.value@, self.category.selected),
    {
        let mut transaction = self.transaction.clone();
        transaction.title = self.title.get_value();
        transaction.group = Some(self.category.value());
        transaction
    }

    /// Apply one keystroke.
    ///
    /// Tab cycles the focus; Escape answers `Cancelled`; other keys go
    /// to the focused part. Activating the confirm control with a title
    /// shorter than `TITLE_MIN_LEN` is a no-op: the form stays open and
    /// nothing is committed. With a long enough title it commits exactly
    /// the edited fields; all others equal the original.
    pub fn handle_key_event(&mut self, key: Key) -> (r: FormOutcome)
        ensures
            final(self)@ == form_step(old(self)@, key).0,
            outcome_view(r) == form_step(old(self)@, key).1,
            match key {
                Key::Tab => {
                    &&& r is Pending
                    &&& final(self).focus == focus_next(old(self).focus)
                    &&& final(self).title == old(self).title
                    &&& final(self).category == old(self).category
                    &&& final(self).transaction == old(self).transaction
                },
                Key::Esc => r is Cancelled && *final(self) == *old(self),
                _ => {
                    &&& final(self).focus == old(self).focus
                    &&& final(self).transaction == old(self).transaction
                    &&& match old(self).focus {
                        PopupFocus::Title => {
                            &&& r is Pending
                            &&& final(self).title.value@ == string_field_step(
                                old(self).title.value@,
                                old(self).title.max_length as nat,
                                key,
                            )
                            &&& final(self).title.max_length == old(self).title.max_length
                            &&& final(self).category == old(self).category
                        },
                        PopupFocus::Category => {
                            &&& r is Pending
                            &&& final(self).category.selected == category_field_step(
                                old(self).category.selected,
                                key,
                            )
                            &&& final(self).title == old(self).title
                        },
                        PopupFocus::Confirm => {
                            &&& *final(self) == *old(self)
                            &&& if key == Key::Enter && old(self).title.value@.len()
                                >= TITLE_MIN_LEN {
                                match r {
                                    FormOutcome::Committed(t) => t@ == edited_view(
                                        old(self).transaction@,
                                        old(self).title.value@,
                                        old(self).category.selected,
                                    ),
                                    _ => false,
                                }
                            } else {
                                r is Pending
                            }
                        },
                    }
                },
            },
    {
        match key {
            Key::Tab => {
                self.focus = self.focus.next();
                return FormOutcome::Pending;
            },
            Key::Esc => {
                return FormOutcome::Cancelled;
            },
            _ => {},
        }
        match self.focus {
            PopupFocus::Title => {
                self.title.handle_key_event(key);
                FormOutcome::Pending
            },
            PopupFocus::Category => {
                self.category.handle_key_event(key);
                FormOutcome::Pending
            },
            PopupFocus::Confirm => {
                if key == Key::Enter {
                    if self.validate_title() {
                        FormOutcome::Committed(self.get_transaction())
                    } else {
                        FormOutcome::Pending
                    }
                } else {
                    FormOutcome::Pending
                }
            },
        }
    }
}

} // verus!
