//! The log of events and its pages.
use vstd::prelude::*;

verus! {

/// Number of events on one page of the activity log.
pub const ACTIVITY_CHUNK_SIZE: usize = 100;

/// One state-changing action, with the Unix time in seconds at which it was
/// recorded.
#[derive(Debug)]
#[allow(inconsistent_fields)]
pub enum PlayerEvent {
    Shoot { shooter: String, from: (i16, i16), to: (i16, i16), target: String, timestamp: u64 },
    Move { player: String, from: (i16, i16), to: (i16, i16), timestamp: u64 },
    GenerateShield { player: String, zord_coord: (i16, i16), timestamp: u64 },
    IncreaseRange { player: String, zord_coord: (i16, i16), timestamp: u64 },
    DonatePoints { from: String, to: String, timestamp: u64 },
    BuildZord { player: String, zord_coord: (i16, i16), timestamp: u64 },
    TotemPoints { player: String, coord: (i16, i16), points: u16, timestamp: u64 },
    Respawn { player: String, coord: (i16, i16), timestamp: u64 },
    TotemSpawned { coord: (i16, i16), timestamp: u64 },
}

/// The mathematical content of a [`PlayerEvent`].
#[allow(inconsistent_fields)]
pub enum Event {
    Shoot { shooter: Seq<char>, from: (int, int), to: (int, int), target: Seq<char>, timestamp: nat },
    Move { player: Seq<char>, from: (int, int), to: (int, int), timestamp: nat },
    GenerateShield { player: Seq<char>, zord_coord: (int, int), timestamp: nat },
    IncreaseRange { player: Seq<char>, zord_coord: (int, int), timestamp: nat },
    DonatePoints { from: Seq<char>, to: Seq<char>, timestamp: nat },
    BuildZord { player: Seq<char>, zord_coord: (int, int), timestamp: nat },
    TotemPoints { player: Seq<char>, coord: (int, int), points: nat, timestamp: nat },
    Respawn { player: Seq<char>, coord: (int, int), timestamp: nat },
    TotemSpawned { coord: (int, int), timestamp: nat },
}

/// A pair of machine coordinates as a pair of integers.
pub open spec fn cell(coord: (i16, i16)) -> (int, int) {
    (coord.0 as int, coord.1 as int)
}

impl View for PlayerEvent {
    type V = Event;

    open spec fn view(&self) -> Event {
        match *self {
            PlayerEvent::Shoot { shooter, from, to, target, timestamp } => Event::Shoot {
                shooter: shooter@,
                from: cell(from),
                to: cell(to),
                target: target@,
                timestamp: timestamp as nat,
            },
            PlayerEvent::Move { player, from, to, timestamp } => Event::Move {
                player: player@,
                from: cell(from),
                to: cell(to),
                timestamp: timestamp as nat,
            },
            PlayerEvent::GenerateShield { player, zord_coord, timestamp } => Event::GenerateShield {
                player: player@,
                zord_coord: cell(zord_coord),
                timestamp: timestamp as nat,
            },
            PlayerEvent::IncreaseRange { player, zord_coord, timestamp } => Event::IncreaseRange {
                player: player@,
                zord_coord: cell(zord_coord),
                timestamp: timestamp as nat,
            },
            PlayerEvent::DonatePoints { from, to, timestamp } => Event::DonatePoints {
                from: from@,
                to: to@,
                timestamp: timestamp as nat,
            },
            PlayerEvent::BuildZord { player, zord_coord, timestamp } => Event::BuildZord {
                player: player@,
                zord_coord: cell(zord_coord),
                timestamp: timestamp as nat,
            },
            PlayerEvent::TotemPoints { player, coord, points, timestamp } => Event::TotemPoints {
                player: player@,
                coord: cell(coord),
                points: points as nat,
                timestamp: timestamp as nat,
            },
            PlayerEvent::Respawn { player, coord, timestamp } => Event::Respawn {
                player: player@,
                coord: cell(coord),
                timestamp: timestamp as nat,
            },
            PlayerEvent::TotemSpawned { coord, timestamp } => Event::TotemSpawned {
                coord: cell(coord),
                timestamp: timestamp as nat,
            },
        }
    }
}

impl Clone for PlayerEvent {
    fn clone(&self) -> (copy: PlayerEvent)
        ensures
            copy@ == self@,
    {
        match self {
            PlayerEvent::Shoot { shooter, from, to, target, timestamp } => PlayerEvent::Shoot {
                shooter: shooter.clone(),
                from: *from,
                to: *to,
                target: target.clone(),
                timestamp: *timestamp,
            },
            PlayerEvent::Move { player, from, to, timestamp } => PlayerEvent::Move {
                player: player.clone(),
                from: *from,
                to: *to,
                timestamp: *timestamp,
            },
            PlayerEvent::GenerateShield { player, zord_coord, timestamp } => {
                PlayerEvent::GenerateShield {
                    player: player.clone(),
                    zord_coord: *zord_coord,
                    timestamp: *timestamp,
                }
            },
            PlayerEvent::IncreaseRange { player, zord_coord, timestamp } => {
                PlayerEvent::IncreaseRange {
                    player: player.clone(),
                    zord_coord: *zord_coord,
                    timestamp: *timestamp,
                }
            },
            PlayerEvent::DonatePoints { from, to, timestamp } => PlayerEvent::DonatePoints {
                from: from.clone(),
                to: to.clone(),
                timestamp: *timestamp,
            },
            PlayerEvent::BuildZord { player, zord_coord, timestamp } => PlayerEvent::BuildZord {
                player: player.clone(),
                zord_coord: *zord_coord,
                timestamp: *timestamp,
            },
            PlayerEvent::TotemPoints { player, coord, points, timestamp } => {
                PlayerEvent::TotemPoints {
                    player: player.clone(),
                    coord: *coord,
                    points: *points,
                    timestamp: *timestamp,
                }
            },
            PlayerEvent::Respawn { player, coord, timestamp } => PlayerEvent::Respawn {
                player: player.clone(),
                coord: *coord,
                timestamp: *timestamp,
            },
            PlayerEvent::TotemSpawned { coord, timestamp } => PlayerEvent::TotemSpawned {
                coord: *coord,
                timestamp: *timestamp,
            },
        }
    }
}

/// The mathematical content of a list of events.
pub open spec fn events_view(events: Seq<PlayerEvent>) -> Seq<Event> {
    events.map_values(|event: PlayerEvent| event@)
}

/// The events of `log` on page `chunk`, most recent first: page 0 holds the
/// last `ACTIVITY_CHUNK_SIZE` events, page 1 the ones before them, and so on.
/// A page past the start of the log is empty.
pub open spec fn page(log: Seq<Event>, chunk: nat) -> Seq<Event> {
    let skipped = ACTIVITY_CHUNK_SIZE * chunk;
    let left = log.len() - skipped;
    let len: nat = if left <= 0 {
        0
    } else if left >= ACTIVITY_CHUNK_SIZE {
        ACTIVITY_CHUNK_SIZE as nat
    } else {
        left as nat
    };
    Seq::new(len, |i: int| log[log.len() - 1 - skipped - i])
}

/// Append-only record of every state-changing action, oldest first.
#[derive(Debug)]
pub struct Logger {
    data: Vec<PlayerEvent>,
}

impl View for Logger {
    type V = Seq<Event>;

    closed spec fn view(&self) -> Seq<Event> {
        events_view(self.data@)
    }
}

impl Logger {
    /// A log without events.
    pub fn new() -> (log: Logger)
        ensures
            log@ == Seq::<Event>::empty(),
    {
        let log = Logger { data: Vec::new() };
        log
    }

    /// Appends `event` to the log.
    pub fn record(&mut self, event: PlayerEvent)
        ensures
            final(self)@ == old(self)@.push(event@),
    {
        self.data.push(event);
    }

    pub fn shoot(
        &mut self,
        shooter: &str,
        from: (i16, i16),
        to: (i16, i16),
        target: &str,
        timestamp: u64,
    )
        ensures
            final(self)@ == old(self)@.push(
                Event::Shoot {
                    shooter: shooter@,
                    from: cell(from),
                    to: cell(to),
                    target: target@,
                    timestamp: timestamp as nat,
                },
            ),
    {
        self.record(
            PlayerEvent::Shoot {
                shooter: shooter.to_owned(),
                from,
                to,
                target: target.to_owned(),
                timestamp,
            },
        );
    }

    pub fn move_zord(&mut self, player: &str, from: (i16, i16), to: (i16, i16), timestamp: u64)
        ensures
            final(self)@ == old(self)@.push(
                Event::Move {
                    player: player@,
                    from: cell(from),
                    to: cell(to),
                    timestamp: timestamp as nat,
                },
            ),
    {
        self.record(PlayerEvent::Move { player: player.to_owned(), from, to, timestamp });
    }

    pub fn generate_shield(&mut self, player: &str, zord_coord: (i16, i16), timestamp: u64)
        ensures
            final(self)@ == old(self)@.push(
                Event::GenerateShield {
                    player: player@,
                    zord_coord: cell(zord_coord),
                    timestamp: timestamp as nat,
                },
            ),
    {
        self.record(
            PlayerEvent::GenerateShield { player: player.to_owned(), zord_coord, timestamp },
        );
    }

    pub fn increase_range(&mut self, player: &str, zord_coord: (i16, i16), timestamp: u64)
        ensures
            final(self)@ == old(self)@.push(
                Event::IncreaseRange {
                    player: player@,
                    zord_coord: cell(zord_coord),
                    timestamp: timestamp as nat,
                },
            ),
    {
        self.record(
            PlayerEvent::IncreaseRange { player: player.to_owned(), zord_coord, timestamp },
        );
    }

    pub fn donate_points(&mut self, from: &str, to: &str, timestamp: u64)
        ensures
            final(self)@ == old(self)@.push(
                Event::DonatePoints { from: from@, to: to@, timestamp: timestamp as nat },
            ),
    {
        self.record(
            PlayerEvent::DonatePoints { from: from.to_owned(), to: to.to_owned(), timestamp },
        );
    }

    pub fn build_zord(&mut self, player: &str, zord_coord: (i16, i16), timestamp: u64)
        ensures
            final(self)@ == old(self)@.push(
                Event::BuildZord {
                    player: player@,
                    zord_coord: cell(zord_coord),
                    timestamp: timestamp as nat,
                },
            ),
    {
        self.record(PlayerEvent::BuildZord { player: player.to_owned(), zord_coord, timestamp });
    }

    pub fn totem_points(&mut self, player: &str, coord: (i16, i16), points: u16, timestamp: u64)
        ensures
            final(self)@ == old(self)@.push(
                Event::TotemPoints {
                    player: player@,
                    coord: cell(coord),
                    points: points as nat,
                    timestamp: timestamp as nat,
                },
            ),
    {
        self.record(
            PlayerEvent::TotemPoints { player: player.to_owned(), coord, points, timestamp },
        );
    }

    pub fn respawn(&mut self, player: &str, coord: (i16, i16), timestamp: u64)
        ensures
            final(self)@ == old(self)@.push(
                Event::Respawn { player: player@, coord: cell(coord), timestamp: timestamp as nat },
            ),
    {
        self.record(PlayerEvent::Respawn { player: player.to_owned(), coord, timestamp });
    }

    pub fn totem_spawned(&mut self, coord: (i16, i16), timestamp: u64)
        ensures
            final(self)@ == old(self)@.push(
                Event::TotemSpawned { coord: cell(coord), timestamp: timestamp as nat },
            ),
    {
        self.record(PlayerEvent::TotemSpawned { coord, timestamp });
    }

    /// Number of events recorded so far.
    pub fn len(&self) -> (n: usize)
        ensures
            n == self@.len(),
    {
        self.data.len()
    }

    /// Page `chunk` of the log, most recent event first.
    pub fn get_chunk(&self, chunk: usize) -> (events: Vec<PlayerEvent>)
        ensures
            events_view(events@) == page(self@, chunk as nat),
    {
        let mut events: Vec<PlayerEvent> = Vec::new();
        let total = self.data.len();
        if chunk > total / ACTIVITY_CHUNK_SIZE {
            assert(ACTIVITY_CHUNK_SIZE * chunk >= total) by (nonlinear_arith)
                requires
                    chunk > total / ACTIVITY_CHUNK_SIZE,
                    ACTIVITY_CHUNK_SIZE == 100,
            ;
            return events;
        }
        assert(ACTIVITY_CHUNK_SIZE * chunk <= total) by (nonlinear_arith)
            requires
                chunk <= total / ACTIVITY_CHUNK_SIZE,
                ACTIVITY_CHUNK_SIZE == 100,
        ;
        let skipped = ACTIVITY_CHUNK_SIZE * chunk;
        let left = total - skipped;
        let len = if left >= ACTIVITY_CHUNK_SIZE {
            ACTIVITY_CHUNK_SIZE
        } else {
            left
        };
        let mut i: usize = 0;
        while i < len
            invariant
                i <= len,
                len <= left,
                left == total - skipped,
                total == self.data.len(),
                skipped <= total,
                events.len() == i,
                forall|k: int|
                    0 <= k < i ==> (#[trigger] events[k])@ == self.data[total - 1 - skipped - k]@,
            decreases len - i,
        {
            events.push(self.data[total - 1 - skipped - i].clone());
            i += 1;
        }
        events
    }
}

} // verus!
