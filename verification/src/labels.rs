//! Class names and their codes.

use crate::error::DataError;
use crate::table::{Column, Value};
use vstd::prelude::*;

verus! {

/// The code of a class name: 1 for `Adelie`, 2 for `Chinstrap`, 3 for
/// `Gentoo`. No other name has a code.
pub open spec fn species_code(name: Seq<char>) -> Option<u32> {
    if name == "Adelie"@ {
        Some(1u32)
    } else if name == "Chinstrap"@ {
        Some(2u32)
    } else if name == "Gentoo"@ {
        Some(3u32)
    } else {
        None
    }
}

/// The code of the label that a cell holds; a missing cell has none, nor
/// has a number.
pub open spec fn value_code<T>(value: Value<T>) -> Option<u32> {
    match value {
        Value::Text(name) => species_code(name),
        _ => None,
    }
}

/// The codes of a sequence of labels, one for each, in their order. One
/// label without a code and there are none.
pub open spec fn label_codes<T>(values: Seq<Value<T>>) -> Result<Seq<u32>, DataError> {
    if forall|r: int| 0 <= r < values.len() ==> value_code(#[trigger] values[r]) is Some {
        Ok(Seq::new(values.len(), |r: int| value_code(values[r])->Some_0))
    } else {
        Err(DataError::UnrecognizedLabel)
    }
}

/// Each of the three class names has its own code, the codes are 1, 2 and
/// 3, and nothing else has a code.
pub proof fn lemma_species_codes()
    ensures
        species_code("Adelie"@) == Some(1u32),
        species_code("Chinstrap"@) == Some(2u32),
        species_code("Gentoo"@) == Some(3u32),
        forall|name: Seq<char>|
            (#[trigger] species_code(name)) is Some <==> name == "Adelie"@ || name == "Chinstrap"@
                || name == "Gentoo"@,
        forall|name: Seq<char>|
            (#[trigger] species_code(name)) matches Some(code) ==> 1 <= code <= 3,
{
    reveal_strlit("Adelie");
    reveal_strlit("Chinstrap");
    reveal_strlit("Gentoo");
    assert("Adelie"@.len() == 6);
    assert("Chinstrap"@.len() == 9);
    assert("Gentoo"@[0] == 'G');
    assert("Adelie"@[0] == 'A');
}

/// Where a sequence of labels has codes, there is one code for each label,
/// and each is 1, 2 or 3.
pub proof fn lemma_label_codes<T>(values: Seq<Value<T>>)
    requires
        label_codes(values) is Ok,
    ensures
        label_codes(values)->Ok_0.len() == values.len(),
        forall|r: int|
            0 <= r < values.len() ==> 1 <= (#[trigger] label_codes(values)->Ok_0[r]) <= 3,
{
    lemma_species_codes();
    assert forall|r: int| 0 <= r < values.len() implies 1 <= (#[trigger] label_codes(
        values,
    )->Ok_0[r]) <= 3 by {
        assert(value_code(values[r]) is Some);
    }
}

/// The code of a class name, or the error for a name that is none of the
/// three.
pub fn encode_label(name: &str) -> (res: Result<u32, DataError>)
    ensures
        res == match species_code(name@) {
            Some(code) => Ok::<u32, DataError>(code),
            None => Err::<u32, DataError>(DataError::UnrecognizedLabel),
        },
{
    let given: String = name.to_owned();
    if given == "Adelie".to_owned() {
        Ok(1)
    } else if given == "Chinstrap".to_owned() {
        Ok(2)
    } else if given == "Gentoo".to_owned() {
        Ok(3)
    } else {
        Err(DataError::UnrecognizedLabel)
    }
}

/// The codes of a column of labels, row by row. A column of numbers is
/// refused. In a column of text every cell must hold one of the three
/// class names: a missing cell or another name is an error, and then no
/// code is handed out at all.
pub fn str_to_num<T>(labels: &Column<T>) -> (res: Result<Vec<u32>, DataError>)
    ensures
        labels is Number ==> res == Err::<Vec<u32>, DataError>(DataError::NotText),
        labels is Text ==> match res {
            Ok(codes) => label_codes(labels.values()) == Ok::<Seq<u32>, DataError>(codes@),
            Err(e) => label_codes(labels.values()) == Err::<Seq<u32>, DataError>(e),
        },
        res matches Ok(codes) ==> {
            &&& codes@.len() == labels.spec_len()
            &&& forall|r: int| 0 <= r < codes@.len() ==> 1 <= #[trigger] codes@[r] <= 3
        },
{
    match labels {
        Column::Number(_) => Err(DataError::NotText),
        Column::Text(cells) => {
            let ghost values = labels.values();
            let mut codes: Vec<u32> = Vec::new();
            let mut r: usize = 0;
            while r < cells.len()
                invariant
                    r <= cells@.len(),
                    values == labels.values(),
                    *labels == Column::<T>::Text(*cells),
                    codes@.len() == r,
                    forall|j: int|
                        0 <= j < r ==> value_code(#[trigger] values[j]) == Some(codes@[j]),
                decreases cells@.len() - r,
            {
                let code: u32 = match &cells[r] {
                    None => {
                        assert(value_code(values[r as int]) is None);
                        return Err(DataError::UnrecognizedLabel);
                    },
                    Some(name) => match encode_label(name.as_str()) {
                        Ok(code) => code,
                        Err(e) => {
                            assert(value_code(values[r as int]) is None);
                            return Err(e);
                        },
                    },
                };
                codes.push(code);
                r = r + 1;
            }
            proof {
                assert(label_codes(values) is Ok);
                assert(codes@ =~= label_codes(values)->Ok_0);
                lemma_label_codes(values);
            }
            Ok(codes)
        },
    }
}

} // verus!
