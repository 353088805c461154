//! Normalization rules for imported bank-export rows: the column-count
//! layout rule, each layout's kind inference and sign convention, and
//! the debit layout's title shortening. Reading and tokenizing the files
//! is the importer's concern; these functions turn one already-split row
//! into a normalized transaction.

use vstd::prelude::*;

use crate::models::Date;
use crate::models::Kind;
use crate::models::NewTransaction;
use crate::models::NewTransactionV;
use crate::text::chars_to_string;

verus! {

/// The two supported export layouts.
#[derive(Clone, Copy, PartialEq, Eq, Structural, Debug)]
pub enum CsvType {
    Credit,
    Debit,
}

/// The layout a file's column count selects: three columns are a credit
/// card export, four a checking account export, anything else is not
/// recognized.
pub open spec fn layout_of_columns(columns: int) -> Option<CsvType> {
    if columns == 3 {
        Some(CsvType::Credit)
    } else if columns == 4 {
        Some(CsvType::Debit)
    } else {
        None
    }
}

/// Select the layout from a file's column count.
pub fn check_kind(columns: usize) -> (r: Option<CsvType>)
    ensures
        r == layout_of_columns(columns as int),
{
    if columns == 3 {
        Some(CsvType::Credit)
    } else if columns == 4 {
        Some(CsvType::Debit)
    } else {
        None
    }
}

/// `s` without its leading spaces.
pub open spec fn trim_start(s: Seq<char>) -> Seq<char>
    decreases s.len(),
{
    if s.len() > 0 && s[0] == ' ' {
        trim_start(s.drop_first())
    } else {
        s
    }
}

/// `s` without its trailing spaces.
pub open spec fn trim_end(s: Seq<char>) -> Seq<char>
    decreases s.len(),
{
    if s.len() > 0 && s.last() == ' ' {
        trim_end(s.drop_last())
    } else {
        s
    }
}

/// `s` without leading and trailing spaces.
pub open spec fn trim_spaces(s: Seq<char>) -> Seq<char> {
    trim_end(trim_start(s))
}

/// Strip leading and trailing spaces.
pub fn trim(s: &str) -> (r: String)
    ensures
        r@ == trim_spaces(s@),
{
    let n = s.unicode_len();
    let mut a: usize = 0;
    proof {
        assert(s@.skip(0) =~= s@);
    }
    while a < n && s.get_char(a) == ' '
        invariant
            a <= n,
            n == s@.len(),
            trim_start(s@) == trim_start(s@.skip(a as int)),
        decreases n - a,
    {
        proof {
            assert(s@.skip(a as int)[0] == s@[a as int]);
            assert(s@.skip(a as int).drop_first() =~= s@.skip(a + 1));
        }
        a += 1;
    }
    proof {
        if a < n {
            assert(s@.skip(a as int)[0] == s@[a as int]);
            assert(trim_start(s@.skip(a as int)) == s@.skip(a as int));
        } else {
            assert(s@.skip(a as int) =~= Seq::<char>::empty());
        }
    }
    let mut b: usize = n;
    while b > a && s.get_char(b - 1) == ' '
        invariant
            a <= b <= n,
            n == s@.len(),
            trim_start(s@) == s@.skip(a as int),
            trim_end(s@.skip(a as int)) == trim_end(s@.subrange(a as int, b as int)),
        decreases b,
    {
        proof {
            assert(s@.subrange(a as int, b as int).last() == s@[b - 1]);
            assert(s@.subrange(a as int, b as int).drop_last() =~= s@.subrange(a as int, b - 1));
        }
        b -= 1;
    }
    proof {
        if b > a {
            assert(s@.subrange(a as int, b as int).last() == s@[b - 1]);
            assert(trim_end(s@.subrange(a as int, b as int)) == s@.subrange(a as int, b as int));
        } else {
            assert(s@.subrange(a as int, b as int) =~= Seq::<char>::empty());
        }
    }
    let mut buf: Vec<char> = Vec::new();
    let mut i: usize = a;
    while i < b
        invariant
            a <= i <= b <= n,
            n == s@.len(),
            buf@ =~= s@.subrange(a as int, i as int),
        decreases b - i,
    {
        buf.push(s.get_char(i));
        proof {
            assert(buf@ =~= s@.subrange(a as int, i + 1));
        }
        i += 1;
    }
    proof {
        assert(buf@ == s@.subrange(a as int, b as int));
        assert(trim_spaces(s@) == s@.subrange(a as int, b as int));
    }
    chars_to_string(&buf)
}

/// The index of the first occurrence of `c` in `s`, or `s.len()` when
/// `c` does not occur.
pub open spec fn char_index(s: Seq<char>, c: char) -> int
    decreases s.len(),
{
    if s.len() == 0 {
        0
    } else if s[0] == c {
        0
    } else {
        1 + char_index(s.drop_first(), c)
    }
}

/// What `char_index` finds: the first occurrence, or the length when
/// there is none.
pub proof fn lemma_char_index(s: Seq<char>, c: char)
    ensures
        0 <= char_index(s, c) <= s.len(),
        char_index(s, c) < s.len() ==> s[char_index(s, c)] == c,
        forall|j: int| 0 <= j < char_index(s, c) ==> s[j] != c,
    decreases s.len(),
{
    if s.len() == 0 {
    } else if s[0] == c {
    } else {
        let d = s.drop_first();
        lemma_char_index(d, c);
        assert(forall|j: int| 0 <= j < d.len() ==> d[j] == s[j + 1]);
        assert forall|j: int| 0 <= j < char_index(s, c) implies s[j] != c by {
            if j > 0 {
                assert(d[j - 1] != c);
            }
        }
    }
}

/// The debit layout's shortened description: the text between the first
/// dash and the second dash (or the end); `None` when the description
/// has no dash at all.
pub open spec fn second_field(s: Seq<char>) -> Option<Seq<char>> {
    let i = char_index(s, '-');
    if i == s.len() {
        None
    } else {
        let rest = s.skip(i + 1);
        Some(rest.take(char_index(rest, '-')))
    }
}

/// Shorten a debit row's description to its second dash-separated
/// field.
pub fn shorten_description(s: &str) -> (r: Option<String>)
    ensures
        match r {
            Some(t) => second_field(s@) == Some(t@),
            None => second_field(s@) is None,
        },
{
    let n = s.unicode_len();
    let mut i: usize = 0;
    while i < n && s.get_char(i) != '-'
        invariant
            i <= n,
            n == s@.len(),
            forall|j: int| 0 <= j < i ==> s@[j] != '-',
        decreases n - i,
    {
        i += 1;
    }
    proof {
        lemma_char_index(s@, '-');
        if i < n {
            assert(char_index(s@, '-') == i) by {
                if char_index(s@, '-') < i {
                    assert(s@[char_index(s@, '-')] != '-');
                }
                if char_index(s@, '-') > i {
                    assert(s@[i as int] != '-');
                }
            }
        } else {
            assert(char_index(s@, '-') == n) by {
                if char_index(s@, '-') < n {
                    assert(s@[char_index(s@, '-')] != '-');
                }
            }
        }
    }
    if i >= n {
        return None;
    }
    let ghost rest = s@.skip(i + 1);
    let mut j: usize = i + 1;
    while j < n && s.get_char(j) != '-'
        invariant
            i < n,
            i + 1 <= j <= n,
            n == s@.len(),
            rest == s@.skip(i + 1),
            forall|k: int| 0 <= k < j - i - 1 ==> rest[k] != '-',
        decreases n - j,
    {
        proof {
            assert(rest[j - i - 1] == s@[j as int]);
        }
        j += 1;
    }
    proof {
        lemma_char_index(rest, '-');
        let ci = char_index(rest, '-');
        if j < n {
            assert(rest[j - i - 1] == s@[j as int]);
            assert(ci == j - i - 1) by {
                if ci < j - i - 1 {
                    assert(rest[ci] != '-');
                }
                if ci > j - i - 1 {
                    assert(rest[j - i - 1] != '-');
                }
            }
        } else {
            assert(ci == rest.len()) by {
                if ci < rest.len() {
                    assert(rest[ci] != '-');
                }
            }
            assert(ci == j - i - 1);
        }
    }
    let mut buf: Vec<char> = Vec::new();
    let mut k: usize = i + 1;
    while k < j
        invariant
            i + 1 <= k <= j <= n,
            n == s@.len(),
            rest == s@.skip(i + 1),
            buf@ =~= rest.take(k - i - 1),
        decreases j - k,
    {
        buf.push(s.get_char(k));
        proof {
            assert(rest[k - i - 1] == s@[k as int]);
            assert(buf@ =~= rest.take(k - i));
        }
        k += 1;
    }
    proof {
        assert(buf@ == rest.take(j - i - 1));
    }
    Some(chars_to_string(&buf))
}

/// Normalize one credit card row. The stored amount is the row's amount
/// with its sign flipped, so a charge (negative in the export) is kept
/// as a positive `CreditPurchase` and a bill payment (positive in the
/// export) as a negative `CreditBillPayment`. The title loses leading
/// and trailing spaces.
pub fn normalize_credit_row(date: Date, title: &str, amount_cents: i64) -> (r: NewTransaction)
    requires
        amount_cents > i64::MIN,
    ensures
        r@ == (NewTransactionV {
            date,
            title: trim_spaces(title@),
            amount: -(amount_cents as int),
            kind: if amount_cents < 0 {
                Kind::CreditPurchase
            } else {
                Kind::CreditBillPayment
            },
        }),
{
    NewTransaction {
        date,
        title: trim(title),
        amount: -amount_cents,
        kind: if amount_cents < 0 {
            Kind::CreditPurchase
        } else {
            Kind::CreditBillPayment
        },
    }
}

/// Normalize one checking account row. The amount keeps its sign: an
/// inflow (positive) is `Income`, anything else a `DebitPurchase`. The
/// title is the description's second dash-separated field, trimmed; a
/// description without a dash has no usable title and the row is
/// rejected.
pub fn normalize_debit_row(date: Date, amount_cents: i64, description: &str) -> (r: Option<
    NewTransaction,
>)
    ensures
        match r {
            Some(t) => second_field(description@) is Some && t@ == (NewTransactionV {
                date,
                title: trim_spaces(second_field(description@).unwrap()),
                amount: amount_cents as int,
                kind: if amount_cents > 0 {
                    Kind::Income
                } else {
                    Kind::DebitPurchase
                },
            }),
            None => second_field(description@) is None,
        },
{
    let short = match shorten_description(description) {
        Some(t) => t,
        None => {
            return None;
        },
    };
    Some(
        NewTransaction {
            date,
            title: trim(short.as_str()),
            amount: amount_cents,
            kind: if amount_cents > 0 {
                Kind::Income
            } else {
                Kind::DebitPurchase
            },
        },
    )
}

} // verus!
