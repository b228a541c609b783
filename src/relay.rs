//! From an incoming chat message to the request that relays it.
use vstd::prelude::*;
use crate::config::Config;
use crate::prefix::{is_longest_match, no_route};
use crate::request::{build_request, is_request_for, ChatRequest};
use crate::response::{schema_of, ChatCompletions};

verus! {

/// A request ready to be sent, with the schema its answer is to be read in.
pub struct Outgoing {
    pub request: ChatRequest,
    pub schema: ChatCompletions,
}

impl Config {
    /// Routes `text` by its longest matching prefix and builds the request for the question
    /// after it, to the prefix's model, with the settings' hint. The answer's schema is
    /// chosen here, from the requested model. `None` where there is no route.
    pub fn prepare_question(&self, text: &str) -> (r: Option<Outgoing>)
        requires
            self.wf(),
        ensures
            r is None <==> no_route(self.prefix@, text@),
            r matches Some(o) ==> exists|p: Seq<char>|
                {
                    &&& is_longest_match(self.prefix@, text@, p)
                    &&& p.len() < text@.len()
                    &&& is_request_for(
                        o.request,
                        self.prefix@[p],
                        self.hint@,
                        text@.subrange(p.len() as int, text@.len() as int),
                    )
                    &&& o.schema == schema_of(self.prefix@[p])
                },
    {
        match self.prefix.dispatch(text) {
            None => None,
            Some(m) => {
                let schema = ChatCompletions::for_model(m.model.as_str());
                let request = build_request(m.model, self.hint.clone(), m.remainder);
                Some(Outgoing { request, schema })
            },
        }
    }
}

} // verus!
