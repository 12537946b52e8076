//! What a game is set up from, and the format of the list of player names.
use vstd::prelude::*;
use vstd::string::*;

verus! {

/// The character that parts the names of the players in a configuration.
pub const SEPARATOR: char = '|';

/// What a game is set up from: the names of the players, and the Unix time
/// in seconds at which the game starts.
pub struct Config {
    pub players: Vec<String>,
    pub start_of_game: u64,
}

/// The pieces into which the separator parts `text`. There is one piece
/// more than there are separators: an empty text is one empty piece, and a
/// separator at either end leaves an empty piece there.
pub open spec fn pieces(text: Seq<char>) -> Seq<Seq<char>>
    decreases text.len(),
{
    if text.len() == 0 {
        seq![Seq::<char>::empty()]
    } else {
        let earlier = pieces(text.drop_last());
        if text.last() == SEPARATOR {
            earlier.push(Seq::<char>::empty())
        } else {
            earlier.update(earlier.len() - 1, earlier.last().push(text.last()))
        }
    }
}

/// The mathematical content of a list of names.
pub open spec fn names_view(names: Seq<String>) -> Seq<Seq<char>> {
    names.map_values(|name: String| name@)
}

pub proof fn lemma_pieces_not_empty(text: Seq<char>)
    ensures
        pieces(text).len() > 0,
    decreases text.len(),
{
    if text.len() > 0 {
        lemma_pieces_not_empty(text.drop_last());
    }
}

impl Config {
    /// The configuration that a list of names parted by `SEPARATOR` and a
    /// start time stand for.
    pub fn from_raw(players: &str, start_of_game: u64) -> (config: Config)
        ensures
            names_view(config.players@) == pieces(players@),
            config.start_of_game == start_of_game,
    {
        let len = players.unicode_len();
        let mut done: Vec<String> = Vec::new();
        let mut current = String::new();
        let mut i: usize = 0;
        while i < len
            invariant
                i <= len,
                len == players@.len(),
                names_view(done@).push(current@) == pieces(players@.take(i as int)),
            decreases len - i,
        {
            let c = players.get_char(i);
            proof {
                let before = players@.take(i as int);
                let after = players@.take(i + 1);
                assert(after.drop_last() =~= before);
                lemma_pieces_not_empty(before);
            }
            let ghost earlier = names_view(done@).push(current@);
            if c == SEPARATOR {
                done.push(current);
                current = String::new();
                proof {
                    assert(names_view(done@).push(current@) =~= earlier.push(Seq::<char>::empty()));
                }
            } else {
                let ghost grown = current@.push(c);
                current.append(players.substring_char(i, i + 1));
                proof {
                    assert(current@ =~= grown);
                }
            }
            i += 1;
        }
        assert(players@.take(i as int) =~= players@);
        done.push(current);
        proof {
            assert(names_view(done@) =~= pieces(players@));
        }
        Config { players: done, start_of_game }
    }
}

} // verus!
