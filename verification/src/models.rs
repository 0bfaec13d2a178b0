//! Models of values that hold other values.
use vstd::prelude::*;

verus! {

/// The model of a result: that of its value or of its error.
pub open spec fn result_model<T: DeepView, E: DeepView>(result: Result<T, E>) -> Result<
    <T as DeepView>::V,
    <E as DeepView>::V,
> {
    match result {
        Ok(value) => Ok(value.deep_view()),
        Err(error) => Err(error.deep_view()),
    }
}

} // verus!
