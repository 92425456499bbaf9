use vstd::prelude::*;

use vstd::string::StringExecFns;
use vstd::string::StrSliceExecFns;

use crate::chars::{first_at, int_text_value, lemma_first_at, parse_i64_range, str_chars, str_eq,
    trim_range, trim_spec, valid_int_text};
use crate::config::{config_of, config_ok, GameConfig};
use crate::errors::AppError;
use crate::frame::{kept_rows, pattern_cells, render_of, READ_CHAR_ALIVE};
use crate::game::{center_fits, centered_scroll_spec, initial_viewport, tick_safe_set, Game,
    Viewport};
use crate::grid::next_gen;
use crate::point::Point;

verus! {

/// One inbound command of the session protocol.
#[derive(Debug, Clone, PartialEq)]
pub enum Cmd {
    Ping,
    Step,
    Play,
    Pause,
    Scroll(i64, i64),
    Center,
    NewGrid(GameConfig),
    Restart,
}

/// One outbound message: connection greeting, status text, a rendered
/// frame, or an error report.
#[derive(Debug, Clone, PartialEq)]
pub enum Message {
    Connected(String),
    Status(String),
    Grid(String),
    Error(String),
}

pub open spec fn msg_is_status(m: Message, t: Seq<char>) -> bool {
    m matches Message::Status(s) && s@ == t
}

pub open spec fn msg_is_frame(m: Message, t: Seq<char>) -> bool {
    m matches Message::Grid(s) && s@ == t
}

pub open spec fn msg_is_error(m: Message, t: Seq<char>) -> bool {
    m matches Message::Error(s) && s@ == t
}

/// One connection's exclusive view of a game: the live game, the
/// snapshot that Restart returns to, and the play/pause flag.
#[derive(Debug)]
pub struct Session {
    pub game: Game,
    pub initial_game: Game,
    pub paused: bool,
}

/// What a command that draws emits: the frame, or a range report when
/// the window has left the coordinate range.
pub open spec fn frame_post(g: Game, msgs: Seq<Message>) -> bool {
    if g.window_fits() {
        msgs.len() == 1 && msg_is_frame(msgs[0], render_of(g))
    } else {
        msgs.len() == 1 && msg_is_error(msgs[0], "the window left the coordinate range"@)
    }
}

/// One turn request: report stabilization on an empty grid, refuse a
/// grid at the edge of the coordinate range, else advance one
/// generation and emit the frame.
pub open spec fn turn_post(old_g: Game, new_g: Game, msgs: Seq<Message>) -> bool {
    if old_g.live() == Set::<(int, int)>::empty() {
        &&& new_g == old_g
        &&& msgs.len() == 1
        &&& msg_is_status(msgs[0], "Grid has stabilized."@)
    } else if !tick_safe_set(old_g.live()) {
        &&& new_g == old_g
        &&& msgs.len() == 1
        &&& msg_is_error(msgs[0], "the grid has reached the edge of the coordinate range"@)
    } else {
        &&& new_g.live() == next_gen(old_g.live())
        &&& new_g.viewport == old_g.viewport
        &&& new_g.settings_spec() == old_g.settings_spec()
        &&& frame_post(new_g, msgs)
    }
}

/// The state is untouched and one error message carries this text.
pub open spec fn err_post(old_s: Session, new_s: Session, msgs: Seq<Message>, t: Seq<char>) -> bool {
    &&& new_s == old_s
    &&& msgs.len() == 1
    &&& msg_is_error(msgs[0], t)
}

/// The state is untouched and one error message is emitted.
pub open spec fn err_any_post(old_s: Session, new_s: Session, msgs: Seq<Message>) -> bool {
    &&& new_s == old_s
    &&& msgs.len() == 1
    &&& msgs[0] is Error
}

pub open spec fn ping_post(old_s: Session, new_s: Session, msgs: Seq<Message>) -> bool {
    if old_s.paused {
        new_s == old_s && msgs.len() == 0
    } else {
        &&& new_s.paused == old_s.paused
        &&& new_s.initial_game == old_s.initial_game
        &&& turn_post(old_s.game, new_s.game, msgs)
    }
}

pub open spec fn step_post(old_s: Session, new_s: Session, msgs: Seq<Message>) -> bool {
    if old_s.paused {
        &&& new_s.paused
        &&& new_s.initial_game == old_s.initial_game
        &&& turn_post(old_s.game, new_s.game, msgs)
    } else {
        &&& new_s.game == old_s.game
        &&& new_s.initial_game == old_s.initial_game
        &&& new_s.paused
        &&& msgs.len() == 0
    }
}

pub open spec fn play_post(old_s: Session, new_s: Session, msgs: Seq<Message>) -> bool {
    if old_s.paused {
        &&& !new_s.paused
        &&& new_s.initial_game == old_s.initial_game
        &&& turn_post(old_s.game, new_s.game, msgs)
    } else {
        new_s == old_s && msgs.len() == 0
    }
}

pub open spec fn pause_post(old_s: Session, new_s: Session, msgs: Seq<Message>) -> bool {
    &&& new_s.game == old_s.game
    &&& new_s.initial_game == old_s.initial_game
    &&& new_s.paused
    &&& msgs.len() == 0
}

pub open spec fn scroll_post(
    old_s: Session,
    new_s: Session,
    dx: int,
    dy: int,
    msgs: Seq<Message>,
) -> bool {
    let sc = old_s.game.viewport.scroll.key();
    &&& new_s.paused == old_s.paused
    &&& new_s.initial_game == old_s.initial_game
    &&& if i64::MIN <= sc.0 + dx <= i64::MAX && i64::MIN <= sc.1 + dy <= i64::MAX {
        &&& new_s.game.live() == old_s.game.live()
        &&& new_s.game.settings_spec() == old_s.game.settings_spec()
        &&& new_s.game.viewport == (Viewport {
            scroll: Point((sc.0 + dx) as i64, (sc.1 + dy) as i64),
            ..old_s.game.viewport
        })
        &&& frame_post(new_s.game, msgs)
    } else {
        &&& new_s.game == old_s.game
        &&& msgs.len() == 1
        &&& msg_is_error(msgs[0], "scroll out of range"@)
    }
}

pub open spec fn center_cmd_post(old_s: Session, new_s: Session, msgs: Seq<Message>) -> bool {
    &&& new_s.paused == old_s.paused
    &&& new_s.initial_game == old_s.initial_game
    &&& if center_fits(old_s.game.live(), old_s.game.viewport) {
        &&& new_s.game.live() == old_s.game.live()
        &&& new_s.game.settings_spec() == old_s.game.settings_spec()
        &&& new_s.game.viewport == (Viewport {
            scroll: Point(
                centered_scroll_spec(old_s.game.live(), old_s.game.viewport).0 as i64,
                centered_scroll_spec(old_s.game.live(), old_s.game.viewport).1 as i64,
            ),
            ..old_s.game.viewport
        })
        &&& frame_post(new_s.game, msgs)
    } else {
        &&& new_s.game == old_s.game
        &&& msgs.len() == 1
        &&& msg_is_error(msgs[0], "centering out of range"@)
    }
}

pub open spec fn newgrid_post(
    old_s: Session,
    new_s: Session,
    config: GameConfig,
    msgs: Seq<Message>,
) -> bool {
    &&& new_s.paused == old_s.paused
    &&& if config_ok(config) {
        &&& new_s.game.live() == pattern_cells(
            kept_rows(config.pattern@),
            READ_CHAR_ALIVE,
        )
        &&& new_s.game.settings_spec() == config.settings
        &&& new_s.game.viewport == initial_viewport(new_s.game.live(), config.settings)
        &&& new_s.initial_game.live() == new_s.game.live()
        &&& new_s.initial_game.viewport == new_s.game.viewport
        &&& new_s.initial_game.settings_spec() == config.settings
        &&& msgs.len() == 2
        &&& msg_is_status(msgs[0], "Started a new game."@)
        &&& frame_post(new_s.game, msgs.skip(1))
    } else {
        &&& new_s.game == old_s.game
        &&& new_s.initial_game == old_s.initial_game
        &&& msgs.len() == 1
        &&& msgs[0] is Error
    }
}

pub open spec fn restart_post(old_s: Session, new_s: Session, msgs: Seq<Message>) -> bool {
    &&& new_s.paused == old_s.paused
    &&& new_s.initial_game == old_s.initial_game
    &&& new_s.game.live() == old_s.initial_game.live()
    &&& new_s.game.viewport == old_s.initial_game.viewport
    &&& new_s.game.settings_spec() == old_s.initial_game.settings_spec()
    &&& msgs.len() == 2
    &&& msg_is_status(msgs[0], "Restarted the current game."@)
    &&& frame_post(new_s.game, msgs.skip(1))
}

impl Session {
    /// Both games are internally consistent.
    pub open spec fn inv(self) -> bool {
        &&& self.game.inv()
        &&& self.initial_game.inv()
    }

    /// A fresh session over this game, paused, with the game itself as
    /// the snapshot that Restart returns to.
    pub fn new(game: Game) -> (r: Session)
        requires
            game.inv(),
        ensures
            r.inv(),
            r.paused,
            r.game == game,
            r.initial_game.live() == game.live(),
            r.initial_game.viewport == game.viewport,
            r.initial_game.settings_spec() == game.settings_spec(),
    {
        let initial_game = game.duplicate();
        Session { game, initial_game, paused: true }
    }

    /// The greeting emitted once when a connection opens.
    pub fn connected(&self) -> (m: Message)
        ensures
            m matches Message::Connected(t) && t@ == "Connected to game server."@,
    {
        Message::Connected(String::from_str("Connected to game server."))
    }

    pub fn is_paused(&self) -> (r: bool)
        ensures
            r == self.paused,
    {
        self.paused
    }

    /// The frame of the current window, or the range report.
    fn frame_msgs(&self) -> (msgs: Vec<Message>)
        requires
            self.game.inv(),
        ensures
            frame_post(self.game, msgs@),
    {
        let mut msgs: Vec<Message> = Vec::new();
        if self.game.can_render() {
            msgs.push(Message::Grid(self.game.draw()));
        } else {
            msgs.push(
                Message::Error(String::from_str("the window left the coordinate range")),
            );
        }
        msgs
    }

    /// Advance one generation and emit the frame; report stabilization
    /// instead when the grid is empty.
    fn next_turn(&mut self) -> (msgs: Vec<Message>)
        requires
            old(self).inv(),
        ensures
            final(self).inv(),
            final(self).paused == old(self).paused,
            final(self).initial_game == old(self).initial_game,
            turn_post(old(self).game, final(self).game, msgs@),
    {
        let mut msgs: Vec<Message> = Vec::new();
        if self.game.is_over() {
            msgs.push(Message::Status(String::from_str("Grid has stabilized.")));
            return msgs;
        }
        if !self.game.is_tick_safe() {
            msgs.push(
                Message::Error(
                    String::from_str("the grid has reached the edge of the coordinate range"),
                ),
            );
            return msgs;
        }
        self.game.tick();
        self.frame_msgs()
    }

    /// Apply one command to this session, returning the outbound
    /// messages it produces. Every command leaves the session
    /// consistent; a failed command leaves it untouched.
    pub fn dispatch(&mut self, cmd: Cmd) -> (msgs: Vec<Message>)
        requires
            old(self).inv(),
        ensures
            final(self).inv(),
            match cmd {
                Cmd::Ping => ping_post(*old(self), *final(self), msgs@),
                Cmd::Step => step_post(*old(self), *final(self), msgs@),
                Cmd::Play => play_post(*old(self), *final(self), msgs@),
                Cmd::Pause => pause_post(*old(self), *final(self), msgs@),
                Cmd::Scroll(dx, dy) => scroll_post(
                    *old(self),
                    *final(self),
                    dx as int,
                    dy as int,
                    msgs@,
                ),
                Cmd::Center => center_cmd_post(*old(self), *final(self), msgs@),
                Cmd::NewGrid(config) => newgrid_post(*old(self), *final(self), config, msgs@),
                Cmd::Restart => restart_post(*old(self), *final(self), msgs@),
            },
    {
        match cmd {
            Cmd::Ping => {
                if self.paused {
                    Vec::new()
                } else {
                    self.next_turn()
                }
            },
            Cmd::Step => {
                if self.paused {
                    self.next_turn()
                } else {
                    self.paused = true;
                    Vec::new()
                }
            },
            Cmd::Play => {
                if self.paused {
                    self.paused = false;
                    self.next_turn()
                } else {
                    Vec::new()
                }
            },
            Cmd::Pause => {
                self.paused = true;
                Vec::new()
            },
            Cmd::Scroll(dx, dy) => {
                let sc = self.game.viewport.scroll;
                let nx: i128 = sc.0 as i128 + dx as i128;
                let ny: i128 = sc.1 as i128 + dy as i128;
                if nx < i64::MIN as i128 || nx > i64::MAX as i128 || ny < i64::MIN as i128 || ny
                    > i64::MAX as i128 {
                    let mut msgs: Vec<Message> = Vec::new();
                    msgs.push(Message::Error(String::from_str("scroll out of range")));
                    msgs
                } else {
                    self.game.scroll(dx, dy);
                    self.frame_msgs()
                }
            },
            Cmd::Center => {
                if self.game.can_center() {
                    self.game.center_viewport();
                    self.frame_msgs()
                } else {
                    let mut msgs: Vec<Message> = Vec::new();
                    msgs.push(Message::Error(String::from_str("centering out of range")));
                    msgs
                }
            },
            Cmd::NewGrid(config) => {
                match config.build() {
                    Ok(g) => {
                        self.initial_game = g.duplicate();
                        self.game = g;
                        let mut msgs: Vec<Message> = Vec::new();
                        msgs.push(Message::Status(String::from_str("Started a new game.")));
                        let mut frame = self.frame_msgs();
                        let ghost head = msgs@;
                        let ghost tail = frame@;
                        msgs.append(&mut frame);
                        proof {
                            assert(msgs@.skip(1) =~= tail);
                        }
                        msgs
                    },
                    Err(e) => {
                        let mut msgs: Vec<Message> = Vec::new();
                        msgs.push(Message::Error(e.describe()));
                        msgs
                    },
                }
            },
            Cmd::Restart => {
                self.game = self.initial_game.duplicate();
                let mut msgs: Vec<Message> = Vec::new();
                msgs.push(Message::Status(String::from_str("Restarted the current game.")));
                let mut frame = self.frame_msgs();
                let ghost tail = frame@;
                msgs.append(&mut frame);
                proof {
                    assert(msgs@.skip(1) =~= tail);
                }
                msgs
            },
        }
    }
}


/// The keyword of a command line: everything before the first space.
pub open spec fn keyword_of(t: Seq<char>) -> Seq<char> {
    t.subrange(0, first_at(t, ' ') as int)
}

/// The argument blob: everything after the first space, empty when the
/// line has none.
pub open spec fn arg_of(t: Seq<char>) -> Seq<char> {
    if first_at(t, ' ') < t.len() {
        t.subrange(first_at(t, ' ') as int + 1, t.len() as int)
    } else {
        Seq::empty()
    }
}

/// A scroll argument: two decimal integers separated by one space, each
/// fitting `i64`, each with optional surrounding whitespace.
pub open spec fn scroll_arg_ok(arg: Seq<char>) -> bool {
    let c = first_at(arg, ' ') as int;
    &&& c < arg.len()
    &&& valid_int_text(trim_spec(arg.subrange(0, c)))
    &&& i64::MIN <= int_text_value(trim_spec(arg.subrange(0, c))) <= i64::MAX
    &&& valid_int_text(trim_spec(arg.subrange(c + 1, arg.len() as int)))
    &&& i64::MIN <= int_text_value(trim_spec(arg.subrange(c + 1, arg.len() as int))) <= i64::MAX
}

pub open spec fn scroll_arg_value(arg: Seq<char>) -> (int, int) {
    let c = first_at(arg, ' ') as int;
    (
        int_text_value(trim_spec(arg.subrange(0, c))),
        int_text_value(trim_spec(arg.subrange(c + 1, arg.len() as int))),
    )
}

/// The protocol keywords have these lengths, and those of equal length
/// differ.
pub proof fn lemma_keywords_distinct()
    ensures
        "ping"@.len() == 4,
        "step"@.len() == 4,
        "play"@.len() == 4,
        "pause"@.len() == 5,
        "scroll"@.len() == 6,
        "center"@.len() == 6,
        "restart"@.len() == 7,
        "new-grid"@.len() == 8,
        "ping"@ != "step"@,
        "ping"@ != "play"@,
        "step"@ != "play"@,
        "scroll"@ != "center"@,
{
    reveal_strlit("ping");
    reveal_strlit("step");
    reveal_strlit("play");
    reveal_strlit("pause");
    reveal_strlit("scroll");
    reveal_strlit("center");
    reveal_strlit("restart");
    reveal_strlit("new-grid");
    assert("ping"@[0] == 'p');
    assert("step"@[0] == 's');
    assert("ping"@[1] == 'i');
    assert("play"@[1] == 'l');
    assert("step"@[1] == 't');
    assert("scroll"@[0] == 's');
    assert("center"@[0] == 'c');
}

/// Read one command line: a keyword, optionally followed by one
/// space-delimited argument blob.
pub fn parse_command(text: &str) -> (r: Result<Cmd, AppError>)
    ensures
        ({
            let t = text@;
            let kw = keyword_of(t);
            let arg = arg_of(t);
            &&& (t.len() == 0 ==> r == Err::<Cmd, AppError>(AppError::EmptyMessage))
            &&& (kw == "ping"@ ==> r == Ok::<Cmd, AppError>(Cmd::Ping))
            &&& (kw == "step"@ ==> r == Ok::<Cmd, AppError>(Cmd::Step))
            &&& (kw == "play"@ ==> r == Ok::<Cmd, AppError>(Cmd::Play))
            &&& (kw == "pause"@ ==> r == Ok::<Cmd, AppError>(Cmd::Pause))
            &&& (kw == "center"@ ==> r == Ok::<Cmd, AppError>(Cmd::Center))
            &&& (kw == "restart"@ ==> r == Ok::<Cmd, AppError>(Cmd::Restart))
            &&& (kw == "scroll"@ ==> (if scroll_arg_ok(arg) {
                r matches Ok(c) && c matches Cmd::Scroll(dx, dy) && dx == scroll_arg_value(arg).0
                    && dy == scroll_arg_value(arg).1
            } else {
                r matches Err(e) && e is ParsePoint
            }))
            &&& (kw == "new-grid"@ ==> (match config_of(arg) {
                Some(c) => r == Ok::<Cmd, AppError>(Cmd::NewGrid(c)),
                None => r matches Err(e) && e is Config,
            }))
            &&& ((t.len() > 0 && kw != "ping"@ && kw != "step"@ && kw != "play"@ && kw
                != "pause"@ && kw != "scroll"@ && kw != "center"@ && kw != "restart"@ && kw
                != "new-grid"@) ==> (r matches Err(e) && e matches AppError::UnknownCommand(k)
                && k@ == kw))
        }),
{
    proof {
        lemma_keywords_distinct();
        lemma_first_at(text@, ' ');
    }
    let n = text.unicode_len();
    if n == 0 {
        proof {
            assert(keyword_of(text@) =~= Seq::<char>::empty());
        }
        return Err(AppError::EmptyMessage);
    }
    let mut ci: usize = 0;
    while ci < n && text.get_char(ci) != ' '
        invariant
            ci <= n,
            n == text@.len(),
            forall|j: int| 0 <= j < ci ==> text@[j] != ' ',
        decreases n - ci,
    {
        ci = ci + 1;
    }
    proof {
        lemma_first_at(text@, ' ');
        assert(first_at(text@, ' ') == ci) by {
            let f = first_at(text@, ' ') as int;
            if f < ci {
                assert(text@[f] != ' ');
            }
            if f > ci {
                assert(ci < n);
                assert(text@[ci as int] == ' ');
            }
        }
    }
    let kw = text.substring_char(0, ci);
    proof {
        assert(kw@ == keyword_of(text@));
    }
    if str_eq(kw, "ping") {
        Ok(Cmd::Ping)
    } else if str_eq(kw, "step") {
        Ok(Cmd::Step)
    } else if str_eq(kw, "play") {
        Ok(Cmd::Play)
    } else if str_eq(kw, "pause") {
        Ok(Cmd::Pause)
    } else if str_eq(kw, "center") {
        Ok(Cmd::Center)
    } else if str_eq(kw, "restart") {
        Ok(Cmd::Restart)
    } else if str_eq(kw, "scroll") {
        if ci == n {
            proof {
                assert(!scroll_arg_ok(arg_of(text@)));
            }
            return Err(
                AppError::ParsePoint(String::from_str("scroll takes two integers")),
            );
        }
        let v = str_chars(text);
        let ghost arg = arg_of(text@);
        proof {
            assert(arg =~= v@.subrange(ci as int + 1, n as int));
            lemma_first_at(arg, ' ');
        }
        let mut si: usize = ci + 1;
        while si < n && v[si] != ' '
            invariant
                ci + 1 <= si <= n,
                ci + 1 <= n,
                n == text@.len(),
                v@ == text@,
                arg == arg_of(text@),
                arg =~= v@.subrange(ci as int + 1, n as int),
                forall|j: int| 0 <= j < si - ci - 1 ==> arg[j] != ' ',
            decreases n - si,
        {
            proof {
                assert(arg[si - ci - 1] == v@[si as int]);
            }
            si = si + 1;
        }
        proof {
            lemma_first_at(arg, ' ');
            if si < n {
                assert(arg[si - ci - 1] == v@[si as int]);
                assert(first_at(arg, ' ') == si - ci - 1) by {
                    let f = first_at(arg, ' ') as int;
                    if f < si - ci - 1 {
                        assert(arg[f] != ' ');
                    }
                    if f > si - ci - 1 {
                        assert(arg[si - ci - 1] == ' ');
                    }
                }
            } else {
                assert(forall|j: int| 0 <= j < arg.len() ==> arg[j] != ' ');
                assert(first_at(arg, ' ') == arg.len()) by {
                    if first_at(arg, ' ') < arg.len() {
                        assert(arg[first_at(arg, ' ') as int] == ' ');
                    }
                }
            }
        }
        if si == n {
            return Err(
                AppError::ParsePoint(String::from_str("scroll takes two integers")),
            );
        }
        let ghost c = first_at(arg, ' ') as int;
        proof {
            assert(arg.subrange(0, c) =~= v@.subrange(ci as int + 1, si as int));
            assert(arg.subrange(c + 1, arg.len() as int) =~= v@.subrange(
                si as int + 1,
                n as int,
            ));
        }
        let (xa, xb) = trim_range(&v, ci + 1, si);
        let dx: i64 = match parse_i64_range(&v, xa, xb) {
            Some(x) => x,
            None => {
                return Err(
                    AppError::ParsePoint(
                        String::from_str("invalid scroll offset: expected an int"),
                    ),
                );
            },
        };
        let (ya, yb) = trim_range(&v, si + 1, n);
        let dy: i64 = match parse_i64_range(&v, ya, yb) {
            Some(y) => y,
            None => {
                return Err(
                    AppError::ParsePoint(
                        String::from_str("invalid scroll offset: expected an int"),
                    ),
                );
            },
        };
        Ok(Cmd::Scroll(dx, dy))
    } else if str_eq(kw, "new-grid") {
        let blob: &str = if ci < n {
            text.substring_char(ci + 1, n)
        } else {
            ""
        };
        proof {
            if ci < n {
                assert(blob@ =~= arg_of(text@));
            } else {
                reveal_strlit("");
                assert(""@.len() == 0);
                assert(blob@ =~= arg_of(text@));
            }
        }
        match GameConfig::from_json(blob) {
            Ok(c) => Ok(Cmd::NewGrid(c)),
            Err(e) => Err(e),
        }
    } else {
        Err(AppError::UnknownCommand(String::from_str(kw)))
    }
}

impl Session {
    /// Apply one inbound command line to this session. A malformed line
    /// produces one error message and leaves the state untouched.
    pub fn handle(&mut self, text: &str) -> (msgs: Vec<Message>)
        requires
            old(self).inv(),
        ensures
            final(self).inv(),
            ({
                let t = text@;
                let kw = keyword_of(t);
                let arg = arg_of(t);
                &&& (t.len() == 0 ==> err_post(
                    *old(self),
                    *final(self),
                    msgs@,
                    AppError::EmptyMessage.describe_spec(),
                ))
                &&& (kw == "ping"@ ==> ping_post(*old(self), *final(self), msgs@))
                &&& (kw == "step"@ ==> step_post(*old(self), *final(self), msgs@))
                &&& (kw == "play"@ ==> play_post(*old(self), *final(self), msgs@))
                &&& (kw == "pause"@ ==> pause_post(*old(self), *final(self), msgs@))
                &&& (kw == "center"@ ==> center_cmd_post(*old(self), *final(self), msgs@))
                &&& (kw == "restart"@ ==> restart_post(*old(self), *final(self), msgs@))
                &&& (kw == "scroll"@ ==> (if scroll_arg_ok(arg) {
                    scroll_post(
                        *old(self),
                        *final(self),
                        scroll_arg_value(arg).0,
                        scroll_arg_value(arg).1,
                        msgs@,
                    )
                } else {
                    err_any_post(*old(self), *final(self), msgs@)
                }))
                &&& (kw == "new-grid"@ ==> (match config_of(arg) {
                    Some(c) => newgrid_post(*old(self), *final(self), c, msgs@),
                    None => err_any_post(*old(self), *final(self), msgs@),
                }))
                &&& ((t.len() > 0 && kw != "ping"@ && kw != "step"@ && kw != "play"@ && kw
                    != "pause"@ && kw != "scroll"@ && kw != "center"@ && kw != "restart"@ && kw
                    != "new-grid"@) ==> err_post(
                    *old(self),
                    *final(self),
                    msgs@,
                    "unrecognized command: "@ + kw,
                ))
            }),
    {
        proof {
            lemma_keywords_distinct();
        }
        let cmd = match parse_command(text) {
            Ok(c) => c,
            Err(e) => {
                let mut msgs: Vec<Message> = Vec::new();
                msgs.push(Message::Error(e.describe()));
                return msgs;
            },
        };
        self.dispatch(cmd)
    }
}

} // verus!
