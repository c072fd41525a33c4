//! The logging configuration.
use vstd::prelude::*;

use crate::text::{concat3, to_owned_text};

verus! {

/// The directives used when neither the environment nor the settings give
/// any.
pub const DEFAULT_LOGGING_DIRECTIVES: &'static str = "warn,opentalk_orchestrator=info";

/// Texts joined with `,` between them.
pub open spec fn joined(items: Seq<Seq<char>>) -> Seq<char>
    decreases items.len(),
{
    if items.len() == 0 {
        Seq::empty()
    } else if items.len() == 1 {
        items[0]
    } else {
        joined(items.drop_last()) + ","@ + items.last()
    }
}

/// The logging configuration of the orchestrator.
pub struct Logging {
    /// The logging directives, in the format of the `RUST_LOG` environment
    /// variable
    pub directives: Option<Vec<String>>,
}

impl Logging {
    /// The configured directives joined with `,`.
    pub fn directives(&self) -> (r: Option<String>)
        ensures
            match self.directives {
                Some(items) => r matches Some(s) && s@ == joined(items@.map_values(|x: String| x@)),
                None => r is None,
            },
    {
        match &self.directives {
            None => None,
            Some(items) => {
                let ghost all = items@.map_values(|x: String| x@);
                let mut out = String::new();
                let mut i: usize = 0;
                while i < items.len()
                    invariant
                        i <= items@.len(),
                        all == items@.map_values(|x: String| x@),
                        out@ == joined(all.subrange(0, i as int)),
                    decreases items.len() - i,
                {
                    let ghost prefix = all.subrange(0, i as int + 1);
                    proof {
                        assert(prefix.drop_last() =~= all.subrange(0, i as int));
                        assert(prefix.last() == items@[i as int]@);
                    }
                    if i == 0 {
                        out = to_owned_text(items[i].as_str());
                    } else {
                        out = concat3(out.as_str(), ",", items[i].as_str());
                    }
                    i = i + 1;
                }
                assert(all.subrange(0, all.len() as int) =~= all);
                Some(out)
            },
        }
    }
}

/// A variable that is set and not empty.
pub open spec fn given(var: Option<Seq<char>>) -> bool {
    var matches Some(v) && v.len() > 0
}

/// The directives that the logging filter is built from: the first of
/// `ORCHESTRATOR_LOG`, `RUST_LOG` (each where set and not empty), the
/// settings, and [`DEFAULT_LOGGING_DIRECTIVES`].
pub open spec fn chosen_directives(
    orchestrator_log: Option<Seq<char>>,
    rust_log: Option<Seq<char>>,
    settings: Option<Seq<char>>,
) -> Seq<char> {
    if given(orchestrator_log) {
        orchestrator_log->0
    } else if given(rust_log) {
        rust_log->0
    } else {
        match settings {
            Some(s) => s,
            None => DEFAULT_LOGGING_DIRECTIVES@,
        }
    }
}

/// The view of an optional string.
pub open spec fn opt_text(s: Option<String>) -> Option<Seq<char>> {
    match s {
        Some(t) => Some(t@),
        None => None,
    }
}

/// Chooses the logging directives, given the values of the environment
/// variables `ORCHESTRATOR_LOG` and `RUST_LOG` and the directives of the
/// settings.
pub fn filter_directives(orchestrator_log: Option<String>, rust_log: Option<String>, settings: Option<String>) -> (r: String)
    ensures
        r@ == chosen_directives(opt_text(orchestrator_log), opt_text(rust_log), opt_text(settings)),
{
    if let Some(v) = orchestrator_log {
        if v.as_str().unicode_len() > 0 {
            return v;
        }
    }
    if let Some(v) = rust_log {
        if v.as_str().unicode_len() > 0 {
            return v;
        }
    }
    match settings {
        Some(s) => s,
        None => to_owned_text(DEFAULT_LOGGING_DIRECTIVES),
    }
}

} // verus!
