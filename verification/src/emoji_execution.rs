//! Sending emojis.

use vstd::prelude::*;

use crate::config::Difficulty;
use crate::exec_enum::ExecEnum;
use crate::execution::Execution;
use crate::game::{Game, GameView};
use crate::orders::Order;
use crate::state::PlayerType;

verus! {

/// An emoji for one player or for all.
pub struct EmojiExecution {
    pub requestor_small_id: u16,
    pub recipient_id: Option<String>,
    pub emoji: i32,
    pub recipient_small_id: Option<Option<u16>>,
    pub active: bool,
}

impl EmojiExecution {
    /// What the execution was created with.
    pub open spec fn order(&self) -> Order {
        Order::Emoji {
            requestor: self.requestor_small_id,
            recipient: crate::orders::text(self.recipient_id),
            emoji: self.emoji,
        }
    }

    pub fn new(requestor_small_id: u16, recipient_id: Option<String>, emoji: i32) -> (execution: Self)
        ensures
            execution.requestor_small_id == requestor_small_id,
            execution.recipient_id == recipient_id,
            execution.emoji == emoji,
            execution.recipient_small_id is None,
            execution.active,
    {
        EmojiExecution { requestor_small_id, recipient_id, emoji, recipient_small_id: None, active: true }
    }
}

/// An emoji that makes an enemy.
pub const EMOJI_MIDDLE_FINGER: i32 = 14;

/// An emoji that annoys.
pub const EMOJI_CLOWN: i32 = 11;

/// The emoji that nations answer with.
pub const REPLY_EMOJI_PLACEHOLDER: i32 = 0;

/// Emojis of good will.
pub open spec fn peaceful(emoji: i32) -> bool {
    emoji == 2 || emoji == 16 || emoji == 27 || emoji == 28 || emoji == 48
}

impl GameView {
    /// The game after a nation ordered an answer to an emoji.
    pub open spec fn replying(self, nation: u16, to: u16) -> GameView {
        if self.has(to) {
            self.ordering(
                Order::Emoji {
                    requestor: nation,
                    recipient: Some(self.player(to).id@),
                    emoji: REPLY_EMOJI_PLACEHOLDER,
                },
            )
        } else {
            self
        }
    }

    /// The game after a nation got an emoji: an insult makes it think worse of the sender,
    /// good will better in an easy game, and it answers all of these.
    pub open spec fn minding_emoji(self, nation: u16, from: u16, emoji: i32) -> GameView {
        if emoji == EMOJI_MIDDLE_FINGER {
            self.relating(nation, from, -100).replying(nation, from)
        } else if emoji == EMOJI_CLOWN {
            self.relating(nation, from, -10).replying(nation, from)
        } else if peaceful(emoji) {
            if self.config.difficulty == Difficulty::Easy {
                self.relating(nation, from, 15).replying(nation, from)
            } else {
                self.replying(nation, from)
            }
        } else {
            self
        }
    }

    /// The game after an emoji was sent, if it may be: a nation minds it where it may
    /// answer.
    pub open spec fn sending_emoji(self, from: u16, to: Option<u16>, emoji: i32) -> GameView {
        if !self.may_send_emoji(from, to) {
            self
        } else {
            let sent = self.emoting(from, to);
            match to {
                Some(nation) => if sent.of_type(nation, PlayerType::Nation) && sent.may_send_emoji(
                    nation,
                    Some(from),
                ) {
                    sent.minding_emoji(nation, from, emoji)
                } else {
                    sent
                },
                None => sent,
            }
        }
    }
}

/// Orders a nation's answer to an emoji.
fn schedule_reply(game: &mut Game, nation: u16, to: u16)
    requires
        old(game).wf(),
    ensures
        final(game).wf(),
        final(game)@ == old(game)@.replying(nation, to),
{
    let id: String = match game.player_by_small_id(to) {
        Some(p) => p.id.clone(),
        None => return,
    };
    game.add_execution(
        ExecEnum::Emoji(EmojiExecution::new(nation, Some(id), REPLY_EMOJI_PLACEHOLDER)),
    );
}

/// Lets a nation mind an emoji.
fn mind_emoji(game: &mut Game, nation: u16, from: u16, emoji: i32)
    requires
        old(game).wf(),
    ensures
        final(game).wf(),
        final(game)@ == old(game)@.minding_emoji(nation, from, emoji),
{
    if emoji == EMOJI_MIDDLE_FINGER {
        game.update_relation(nation, from, -100);
        schedule_reply(game, nation, from);
    } else if emoji == EMOJI_CLOWN {
        game.update_relation(nation, from, -10);
        schedule_reply(game, nation, from);
    } else if emoji == 2 || emoji == 16 || emoji == 27 || emoji == 28 || emoji == 48 {
        if game.wire.difficulty == Difficulty::Easy {
            game.update_relation(nation, from, 15);
        }
        schedule_reply(game, nation, from);
    }
}

impl Execution for EmojiExecution {
    open spec fn ready(&self, game: GameView) -> bool {
        true
    }

    open spec fn begun(&self, game: GameView, tick: u32) -> GameView {
        game
    }

    open spec fn ticked(&self, game: GameView, tick: u32) -> GameView {
        match self.recipient_small_id {
            Some(to) => if self.active {
                game.sending_emoji(self.requestor_small_id, to, self.emoji)
            } else {
                game
            },
            None => game,
        }
    }

    open spec fn begun_as(&self, game: GameView, tick: u32, next: Self) -> bool {
        &&& next.requestor_small_id == self.requestor_small_id
        &&& next.recipient_id == self.recipient_id
        &&& next.emoji == self.emoji
        &&& match self.recipient_id {
            None => next.recipient_small_id == Some(None::<u16>) && next.active
                == self.active,
            Some(id) => match game.known(id@) {
                Some(to) => next.recipient_small_id == Some(Some(to))
                    && next.active == self.active,
                None => next.recipient_small_id == self.recipient_small_id
                    && !next.active,
            },
        }
    }

    open spec fn ticked_as(&self, game: GameView, tick: u32, next: Self) -> bool {
        next == (EmojiExecution { active: false, ..*self })
    }

    open spec fn going(&self) -> bool {
        self.active
    }

    fn init(&mut self, game: &mut Game, tick: u32) {
        let to: Option<u16> = match &self.recipient_id {
            None => None,
            Some(id) => match game.small_id_of(id) {
                Some(to) => Some(to),
                None => {
                    self.active = false;
                    return;
                },
            },
        };
        self.recipient_small_id = Some(to);
    }

    fn tick(&mut self, game: &mut Game, tick: u32) {
        if !self.active {
            return;
        }
        self.active = false;
        let to: Option<u16> = match self.recipient_small_id {
            Some(to) => to,
            None => return,
        };
        let from: u16 = self.requestor_small_id;
        if !game.can_send_emoji(from, to) {
            return;
        }
        game.record_emoji_send(from, to);
        match to {
            Some(nation) => {
                if game.is_of_type(nation, PlayerType::Nation) && game.can_send_emoji(
                    nation,
                    Some(from),
                ) {
                    mind_emoji(game, nation, from, self.emoji);
                }
            },
            None => {},
        }
    }

    fn is_active(&self) -> (active: bool) {
        self.active
    }
}

} // verus!
