//! Repair of a stored document.

use crate::config::model::{Configuration, Pair, ServerMapping};
use crate::proxy::utils::{clean_address, clean_backend_address};
use vstd::prelude::*;
use vstd::string::*;

verus! {

/// The pairs of a document after every target was cleaned.
pub open spec fn cleaned_pairs(pairs: Seq<Pair>) -> Seq<Pair> {
    pairs.map_values(|p: Pair| (p.0, clean_address(p.1)))
}

/// Whether cleaning changes the target of a pair.
pub open spec fn needs_cleaning(pair: Pair) -> bool {
    clean_address(pair.1) != pair.1
}

/// Cleans the target of every route of a document; says whether any
/// target changed, that is, whether the document has to be written back.
pub fn fix_config_file(config: &mut Configuration) -> (changes_made: bool)
    ensures
        final(config).pairs() == cleaned_pairs(old(config).pairs()),
        changes_made == (final(config).pairs() != old(config).pairs()),
{
    let mut changes_made = false;
    let mut cleaned: Vec<ServerMapping> = Vec::new();
    let mut i: usize = 0;
    proof {
        assert(cleaned.deep_view() == cleaned_pairs(config.pairs().take(0)));
    }
    while i < config.servers.len()
        invariant
            i <= config.servers.len(),
            config == old(config),
            cleaned.deep_view() == cleaned_pairs(config.pairs().take(i as int)),
            changes_made == (exists|k: int| 0 <= k < i && needs_cleaning(#[trigger] config.pairs()[k])),
        decreases config.servers.len() - i,
    {
        let ghost before = cleaned.deep_view();
        let ghost seen = config.pairs().take(i as int);
        let to = clean_backend_address(config.servers[i].to.as_str());
        let changed = !(to == config.servers[i].to);
        let entry = ServerMapping { from: config.servers[i].from.clone(), to };
        cleaned.push(entry);
        proof {
            let next = config.pairs().take(i + 1);
            assert(next == seen.push(config.servers@[i as int]@));
            assert(cleaned.deep_view() == before.push(entry@));
            assert(cleaned.deep_view() == cleaned_pairs(next));
            assert(changed == needs_cleaning(config.pairs()[i as int]));
        }
        changes_made = changes_made || changed;
        i += 1;
    }
    proof {
        let pairs = config.pairs();
        assert(pairs.take(i as int) == pairs);
        if changes_made {
            let k = choose|k: int| 0 <= k < i && needs_cleaning(#[trigger] pairs[k]);
            assert(cleaned.deep_view()[k] != pairs[k]);
        } else {
            assert forall|k: int| 0 <= k < pairs.len() implies cleaned.deep_view()[k]
                == pairs[k] by {
                assert(!needs_cleaning(pairs[k]));
            }
            assert(cleaned.deep_view() == pairs);
        }
    }
    config.servers = cleaned;
    changes_made
}

} // verus!
