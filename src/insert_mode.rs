use vstd::prelude::*;
use crate::form::key_step;
use crate::key::Key;
use crate::session::AppState;

verus! {

/// Handles one editing key in Insert mode by handing it to the open form;
/// without a form nothing changes. The rest of the session stays as it was.
pub fn handle_key(key: Key, state: &mut AppState)
    requires
        old(state).wf(),
    ensures
        final(state).wf(),
        *final(state) == (AppState { event_form: final(state).event_form, ..*old(state) }),
        old(state).event_form is None ==> final(state).event_form is None,
        old(state).event_form matches Some(f) ==> (final(state).event_form matches Some(g) && key_step(f, g, key)),
{
    if let Some(form) = state.event_form.as_mut() {
        form.handle_key(key);
    }
}

} // verus!
