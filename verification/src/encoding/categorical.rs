//! Categorical dictionary encoders.
use vstd::prelude::*;

use crate::data::FSEFieldType;
use crate::text::{decimal_text, owned_text, push_decimal, str_eq};
use vstd::string::StringExecFns;

verus! {

/// Error returned when checked categorical dictionary construction fails.
#[derive(Clone, Debug, PartialEq, Eq)]
pub enum CategoricalDictionaryError {
    /// No category labels were provided.
    EmptyDictionary,
    /// A category label was empty.
    EmptyCategory {
        /// Category index containing the empty label.
        index: usize,
    },
    /// A category label appeared more than once.
    DuplicateCategory {
        /// Repeated category label.
        category: String,
    },
}

/// Diagnostic text of a categorical dictionary error.
pub open spec fn dictionary_error_message(error: CategoricalDictionaryError) -> &'static str {
    match error {
        CategoricalDictionaryError::EmptyDictionary => {
            "categorical dictionary must contain at least one category"
        },
        CategoricalDictionaryError::EmptyCategory { .. } => "category must not be empty",
        CategoricalDictionaryError::DuplicateCategory { .. } => "category appears more than once",
    }
}

impl CategoricalDictionaryError {
    /// Returns a short diagnostic message for the error, without the values it
    /// names; `description` gives the full text.
    pub fn message(&self) -> (message: &'static str)
        ensures
            message == dictionary_error_message(*self),
    {
        match self {
            CategoricalDictionaryError::EmptyDictionary => {
                "categorical dictionary must contain at least one category"
            },
            CategoricalDictionaryError::EmptyCategory { .. } => "category must not be empty",
            CategoricalDictionaryError::DuplicateCategory { .. } => "category appears more than once",
        }
    }
}

/// Diagnostic text of a categorical dictionary error, with the index or label
/// it names.
pub open spec fn dictionary_error_text(error: CategoricalDictionaryError) -> Seq<char> {
    match error {
        CategoricalDictionaryError::EmptyDictionary => {
            "categorical dictionary must contain at least one category"@
        },
        CategoricalDictionaryError::EmptyCategory { index } => "category "@ + decimal_text(
            index as nat,
        ) + " must not be empty"@,
        CategoricalDictionaryError::DuplicateCategory { category } => "category '"@ + category@
            + "' appears more than once"@,
    }
}

impl CategoricalDictionaryError {
    /// Returns the diagnostic text for the error, with the index or label it
    /// names.
    pub fn description(&self) -> (text: String)
        ensures
            text@ == dictionary_error_text(*self),
    {
        match self {
            CategoricalDictionaryError::EmptyDictionary => owned_text(
                "categorical dictionary must contain at least one category",
            ),
            CategoricalDictionaryError::EmptyCategory { index } => {
                let mut text = owned_text("category ");
                push_decimal(&mut text, *index as u64);
                text.append(" must not be empty");
                text
            },
            CategoricalDictionaryError::DuplicateCategory { category } => {
                let mut text = owned_text("category '");
                text.append(category.as_str());
                text.append("' appears more than once");
                text
            },
        }
    }
}

/// The label at `index` repeats a label found earlier in the dictionary.
pub open spec fn repeats_earlier_label(categories: Seq<String>, index: int) -> bool {
    exists|earlier: int| 0 <= earlier < index && #[trigger] categories[earlier]@ == categories[index]@
}

/// The first invalid label at or after `index`, in dictionary order.
pub open spec fn first_invalid_category_from(categories: Seq<String>, index: int) -> Option<
    CategoricalDictionaryError,
>
    decreases categories.len() - index,
{
    if index < 0 || index >= categories.len() {
        None
    } else if categories[index]@.len() == 0 {
        Some(CategoricalDictionaryError::EmptyCategory { index: index as usize })
    } else if repeats_earlier_label(categories, index) {
        Some(CategoricalDictionaryError::DuplicateCategory { category: categories[index] })
    } else {
        first_invalid_category_from(categories, index + 1)
    }
}

/// Why the labels do not form a dictionary, or `None` when they do.
pub open spec fn dictionary_error(categories: Seq<String>) -> Option<CategoricalDictionaryError> {
    if categories.len() == 0 {
        Some(CategoricalDictionaryError::EmptyDictionary)
    } else {
        first_invalid_category_from(categories, 0)
    }
}

/// The labels are non-empty, each non-empty, and pairwise distinct.
pub open spec fn is_valid_dictionary(categories: Seq<String>) -> bool {
    &&& categories.len() > 0
    &&& forall|i: int| 0 <= i < categories.len() ==> #[trigger] categories[i]@.len() > 0
    &&& forall|i: int, j: int|
        0 <= i < j < categories.len() ==> #[trigger] categories[i]@ != #[trigger] categories[j]@
}

proof fn lemma_first_invalid_none(categories: Seq<String>, index: int)
    requires
        0 <= index <= categories.len(),
        first_invalid_category_from(categories, index) is None,
    ensures
        forall|i: int| index <= i < categories.len() ==> #[trigger] categories[i]@.len() > 0,
        forall|i: int| index <= i < categories.len() ==> !repeats_earlier_label(categories, i),
    decreases categories.len() - index,
{
    if index < categories.len() {
        lemma_first_invalid_none(categories, index + 1);
    }
}

/// A dictionary is accepted exactly when its labels are non-empty and distinct.
pub proof fn lemma_dictionary_error_none_iff_valid(categories: Seq<String>)
    ensures
        dictionary_error(categories) is None <==> is_valid_dictionary(categories),
{
    if dictionary_error(categories) is None {
        lemma_first_invalid_none(categories, 0);
        assert forall|i: int, j: int| 0 <= i < j < categories.len() implies #[trigger] categories[i]@
            != #[trigger] categories[j]@ by {
            assert(!repeats_earlier_label(categories, j));
        }
    }
    if is_valid_dictionary(categories) {
        lemma_valid_has_no_invalid(categories, 0);
    }
}

proof fn lemma_valid_has_no_invalid(categories: Seq<String>, index: int)
    requires
        is_valid_dictionary(categories),
        0 <= index <= categories.len(),
    ensures
        first_invalid_category_from(categories, index) is None,
    decreases categories.len() - index,
{
    if index < categories.len() {
        assert(categories[index]@.len() > 0);
        if repeats_earlier_label(categories, index) {
            let earlier = choose|earlier: int|
                0 <= earlier < index && #[trigger] categories[earlier]@ == categories[index]@;
            assert(categories[earlier]@ != categories[index]@);
        }
        lemma_valid_has_no_invalid(categories, index + 1);
    }
}

/// Dictionary-backed encoder for categorical values.
///
/// `CategoricalDictionaryEncoder` maps stable category labels to deterministic
/// numeric codes: the code of a label is its position in the dictionary. The
/// mapping is exact for equality predicates; it does not imply lexical ordering
/// or semantic similarity.
#[derive(Debug, PartialEq)]
pub struct CategoricalDictionaryEncoder {
    categories: Vec<String>,
}

impl View for CategoricalDictionaryEncoder {
    type V = Seq<String>;

    closed spec fn view(&self) -> Seq<String> {
        self.categories@
    }
}

impl CategoricalDictionaryEncoder {
    #[verifier::type_invariant]
    closed spec fn dictionary_is_valid(self) -> bool {
        is_valid_dictionary(self.categories@)
    }

    /// Creates a categorical dictionary encoder.
    ///
    /// The labels must be non-empty and distinct, and there must be at least one.
    pub fn new(categories: Vec<String>) -> (encoder: Self)
        requires
            dictionary_error(categories@) is None,
        ensures
            encoder@ == categories@,
    {
        match Self::try_new(categories) {
            Ok(encoder) => encoder,
            Err(_) => {
                proof {
                    assert(false);
                }
                CategoricalDictionaryEncoder { categories: Vec::new() }
            },
        }
    }

    /// Creates a categorical dictionary encoder and returns an error when invalid.
    pub fn try_new(categories: Vec<String>) -> (result: Result<Self, CategoricalDictionaryError>)
        ensures
            match dictionary_error(categories@) {
                None => result matches Ok(encoder) && encoder@ == categories@ && is_valid_dictionary(
                    encoder@,
                ),
                Some(error) => result == Err::<Self, CategoricalDictionaryError>(error),
            },
    {
        if categories.len() == 0 {
            return Err(CategoricalDictionaryError::EmptyDictionary);
        }
        let mut index: usize = 0;
        while index < categories.len()
            invariant
                index <= categories@.len(),
                categories@.len() > 0,
                first_invalid_category_from(categories@, 0) == first_invalid_category_from(
                    categories@,
                    index as int,
                ),
            decreases categories@.len() - index,
        {
            if categories[index].as_str().is_empty() {
                return Err(CategoricalDictionaryError::EmptyCategory { index });
            }
            let mut earlier: usize = 0;
            while earlier < index
                invariant
                    earlier <= index < categories@.len(),
                    categories@[index as int]@.len() > 0,
                    first_invalid_category_from(categories@, 0) == first_invalid_category_from(
                        categories@,
                        index as int,
                    ),
                    forall|j: int| 0 <= j < earlier ==> categories@[j]@ != categories@[index as int]@,
                decreases index - earlier,
            {
                if str_eq(categories[earlier].as_str(), categories[index].as_str()) {
                    proof {
                        assert(categories@[earlier as int]@ == categories@[index as int]@);
                        assert(repeats_earlier_label(categories@, index as int));
                    }
                    let category = categories[index].clone();
                    proof {
                        assert(category == categories@[index as int]);
                        assert(categories@[index as int]@.len() != 0);
                        assert(first_invalid_category_from(categories@, index as int) == Some(
                            CategoricalDictionaryError::DuplicateCategory { category },
                        ));
                    }
                    return Err(CategoricalDictionaryError::DuplicateCategory { category });
                }
                earlier = earlier + 1;
            }
            proof {
                assert(!repeats_earlier_label(categories@, index as int));
            }
            index = index + 1;
        }
        proof {
            lemma_dictionary_error_none_iff_valid(categories@);
        }
        Ok(CategoricalDictionaryEncoder { categories })
    }

    /// Returns category labels in dictionary order.
    pub fn categories(&self) -> (categories: &[String])
        ensures
            categories@ == self@,
            is_valid_dictionary(self@),
    {
        proof {
            use_type_invariant(self);
        }
        self.categories.as_slice()
    }

    /// Returns the numeric code for a category label.
    pub fn code_for_category(&self, category: &str) -> (code: Option<usize>)
        ensures
            match code {
                Some(index) => index < self@.len() && self@[index as int]@ == category@,
                None => forall|i: int| 0 <= i < self@.len() ==> self@[i]@ != category@,
            },
    {
        let mut index: usize = 0;
        while index < self.categories.len()
            invariant
                index <= self.categories@.len(),
                forall|i: int| 0 <= i < index ==> self.categories@[i]@ != category@,
            decreases self.categories@.len() - index,
        {
            if str_eq(self.categories[index].as_str(), category) {
                return Some(index);
            }
            index = index + 1;
        }
        None
    }

    /// Returns the input field type accepted by this encoder.
    pub fn field_type(&self) -> (field_type: FSEFieldType)
        ensures
            field_type == FSEFieldType::Category,
    {
        FSEFieldType::Category
    }

    /// Returns the number of coordinate dimensions produced by this encoder.
    pub fn output_dimensions(&self) -> (dimensions: usize)
        ensures
            dimensions == 1,
    {
        1
    }
}

/// Distinct codes name distinct labels: the code of a label is unique.
pub proof fn lemma_codes_are_unique(encoder: CategoricalDictionaryEncoder, i: int, j: int)
    requires
        is_valid_dictionary(encoder@),
        0 <= i < encoder@.len(),
        0 <= j < encoder@.len(),
        encoder@[i]@ == encoder@[j]@,
    ensures
        i == j,
{
    if i < j {
        assert(encoder@[i]@ != encoder@[j]@);
    } else if j < i {
        assert(encoder@[j]@ != encoder@[i]@);
    }
}

} // verus!
