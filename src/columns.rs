//! Locating a named column in a header row.
use vstd::prelude::*;
use vstd::string::StrSliceExecFns;

use crate::record::{record_fields, record_get, record_len};

verus! {

/// Why a header row does not name a column exactly once.
#[derive(Debug, Clone, Copy, PartialEq, Eq, Structural)]
pub enum ColumnError {
    /// No field of the header holds the name.
    Missing,
    /// Two or more fields of the header hold the name.
    Duplicated,
}

/// How many of `fields` equal `name`.
pub open spec fn count_in(fields: Seq<Seq<char>>, name: Seq<char>) -> nat
    decreases fields.len(),
{
    if fields.len() == 0 {
        0
    } else {
        count_in(fields.drop_last(), name) + if fields.last() == name {
            1nat
        } else {
            0nat
        }
    }
}

/// Where `name` stands among `fields`: the position of its only occurrence,
/// or why there is no such position.
pub open spec fn column_of(fields: Seq<Seq<char>>, name: Seq<char>) -> Result<int, ColumnError> {
    if count_in(fields, name) == 0 {
        Err(ColumnError::Missing)
    } else if count_in(fields, name) >= 2 {
        Err(ColumnError::Duplicated)
    } else {
        Ok(choose|i: int| 0 <= i < fields.len() && fields[i] == name)
    }
}

proof fn lemma_count_extend(fields: Seq<Seq<char>>, name: Seq<char>, i: int)
    requires
        0 <= i < fields.len(),
    ensures
        count_in(fields.subrange(0, i + 1), name) == count_in(fields.subrange(0, i), name) + if fields[i] == name {
            1nat
        } else {
            0nat
        },
{
    assert(fields.subrange(0, i + 1).drop_last() =~= fields.subrange(0, i));
}

/// Where a name does not occur, no field equals it.
proof fn lemma_count_zero_absent(fields: Seq<Seq<char>>, name: Seq<char>, i: int)
    requires
        count_in(fields, name) == 0,
        0 <= i < fields.len(),
    ensures
        fields[i] != name,
    decreases fields.len(),
{
    if i < fields.len() - 1 {
        lemma_count_zero_absent(fields.drop_last(), name, i);
    }
}

/// Whether two strings hold the same characters.
fn same_text(a: &str, b: &str) -> (r: bool)
    ensures
        r == (a@ == b@),
{
    let n = a.unicode_len();
    if n != b.unicode_len() {
        return false;
    }
    let mut i: usize = 0;
    while i < n
        invariant
            n == a@.len(),
            n == b@.len(),
            i <= n,
            forall|j: int| 0 <= j < i ==> a@[j] == b@[j],
        decreases n - i,
    {
        if a.get_char(i) != b.get_char(i) {
            return false;
        }
        i = i + 1;
    }
    assert(a@ =~= b@);
    true
}

/// The position of the only field of `header` that equals `name`.
///
/// Fails with [`ColumnError::Missing`] where no field equals `name`, and with
/// [`ColumnError::Duplicated`] where two or more do.
pub fn find_column(header: &csv::StringRecord, name: &str) -> (r: Result<usize, ColumnError>)
    ensures
        r is Ok <==> count_in(record_fields(*header), name@) == 1,
        r is Ok ==> r->Ok_0 < record_fields(*header).len() && record_fields(*header)[r->Ok_0 as int] == name@,
        r is Ok ==> column_of(record_fields(*header), name@) == Ok::<int, ColumnError>(r->Ok_0 as int),
        r is Err ==> column_of(record_fields(*header), name@) == Err::<int, ColumnError>(r->Err_0),
{
    let ghost fields = record_fields(*header);
    let n = record_len(header);
    let mut found: Option<usize> = None;
    let mut duplicated = false;
    let mut i: usize = 0;
    while i < n
        invariant
            n == fields.len(),
            fields == record_fields(*header),
            i <= n,
            duplicated <==> count_in(fields.subrange(0, i as int), name@) >= 2,
            found is None <==> count_in(fields.subrange(0, i as int), name@) == 0,
            found is Some ==> found->Some_0 < i && fields[found->Some_0 as int] == name@,
        decreases n - i,
    {
        proof {
            lemma_count_extend(fields, name@, i as int);
        }
        let field = record_get(header, i);
        if let Some(f) = field {
            if same_text(f, name) {
                if found.is_some() {
                    duplicated = true;
                } else {
                    found = Some(i);
                }
            }
        }
        i = i + 1;
    }
    assert(fields.subrange(0, n as int) =~= fields);
    if duplicated {
        Err(ColumnError::Duplicated)
    } else {
        match found {
            None => Err(ColumnError::Missing),
            Some(k) => {
                proof {
                    assert forall|j: int| 0 <= j < fields.len() && fields[j] == name@ implies j == k by {
                        lemma_unique(fields, name@, k as int, j);
                    }
                }
                Ok(k)
            },
        }
    }
}

/// Where a name occurs once, any two fields that equal it are the same field.
proof fn lemma_unique(fields: Seq<Seq<char>>, name: Seq<char>, k: int, j: int)
    requires
        count_in(fields, name) == 1,
        0 <= k < fields.len(),
        0 <= j < fields.len(),
        fields[k] == name,
        fields[j] == name,
    ensures
        j == k,
    decreases fields.len(),
{
    let last = fields.len() - 1;
    if k < last && j < last {
        if fields.last() == name {
            lemma_count_zero_absent(fields.drop_last(), name, k);
        } else {
            lemma_unique(fields.drop_last(), name, k, j);
        }
    } else if k == last && j < last {
        lemma_count_zero_absent(fields.drop_last(), name, j);
    } else if j == last && k < last {
        lemma_count_zero_absent(fields.drop_last(), name, k);
    }
}

} // verus!
