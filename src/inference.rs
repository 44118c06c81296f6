use vstd::prelude::*;

use crate::residency::LoadError;
use crate::session::GenerationSession;

verus! {

/// The result of a blocking generation: the whole text, the number of
/// fragments produced and their token ids.
pub struct GenerationResponse {
    pub text: String,
    pub tokens_generated: usize,
    pub context: Vec<i32>,
}

/// Failures that the serving layer reports.
pub enum ServeError {
    /// No catalog entry for the requested model.
    ModelNotFound(String),
    /// The backend could not load the model.
    LoadFailure(String),
    /// The backend failed during generation.
    GenerationFailure(String),
}

/// Load failures reach callers unchanged.
pub fn serve_error_from_load(e: LoadError) -> (r: ServeError)
    ensures
        match e {
            LoadError::ModelNotFound(m) => r == ServeError::ModelNotFound(m),
            LoadError::LoadFailure(m) => r == ServeError::LoadFailure(m),
        },
{
    match e {
        LoadError::ModelNotFound(m) => ServeError::ModelNotFound(m),
        LoadError::LoadFailure(m) => ServeError::LoadFailure(m),
    }
}

/// The result of a blocking generation once its session is over: the whole
/// output, or the backend's failure with the partial output dropped.
pub fn blocking_result(session: &GenerationSession) -> (r: Result<GenerationResponse, ServeError>)
    requires
        session.wf(),
    ensures
        session.failure_message() matches Some(m) ==> r == Err::<GenerationResponse, ServeError>(
            ServeError::GenerationFailure(m),
        ),
        session.failure_message() is None ==> (r matches Ok(resp) && resp.text@ == session.view().text
            && resp.tokens_generated == session.view().produced && resp.context@
            == session.view().tokens),
{
    match session.failure() {
        Some(m) => Err(ServeError::GenerationFailure(m.clone())),
        None => Ok(
            GenerationResponse {
                text: session.text().clone(),
                tokens_generated: session.tokens_generated(),
                context: session.tokens().clone(),
            },
        ),
    }
}

/// The context carried into the next turn: what was stored before, then the
/// tokens of this turn.
pub fn extend_context(prior: Option<Vec<i32>>, turn: &Vec<i32>) -> (r: Vec<i32>)
    ensures
        r@ == (match prior {
            Some(p) => p@,
            None => Seq::<i32>::empty(),
        }) + turn@,
{
    let mut out = match prior {
        Some(p) => p,
        None => Vec::new(),
    };
    let mut i: usize = 0;
    let ghost start = out@;
    while i < turn.len()
        invariant
            i <= turn.len(),
            out@ == start + turn@.take(i as int),
        decreases turn.len() - i,
    {
        out.push(turn[i]);
        i = i + 1;
        assert(turn@.take(i as int) == turn@.take(i - 1).push(turn@[i - 1]));
        assert(out@ =~= start + turn@.take(i as int));
    }
    assert(turn@.take(i as int) =~= turn@);
    out
}

} // verus!
