//! The dashboard: a grid of sessions, one of which can be focused.
use vstd::prelude::*;

use crate::metrics::MetricType;
use crate::session::SessionData;

verus! {

/// Which panel is selected/focused in the focus view.
#[derive(Debug, Clone, Copy, PartialEq, Eq, Structural)]
pub enum FocusPanel {
    Sidebar,
    Disk,
    SysInfo,
    Main,
    Terminal,
}

/// State within focus mode.
#[derive(Debug, Clone, Copy, PartialEq, Eq, Structural)]
pub enum FocusState {
    /// Arrow keys move between panels.
    PanelSelect,
    /// Selected panel receives input.
    PanelFocused,
}

/// Cardinal direction for panel navigation.
#[derive(Debug, Clone, Copy, PartialEq, Eq, Structural)]
pub enum NavDirection {
    Up,
    Down,
    Left,
    Right,
}

/// Dashboard manages multiple SSH sessions in a grid layout. `S` is a session, or a handle to one.
pub struct Dashboard<S> {
    pub sessions: Vec<S>,
    /// Number of columns in the grid.
    pub cols: usize,
    /// Currently selected tile index.
    pub selected: usize,
    /// Currently focused session index (None = grid view).
    pub focused: Option<usize>,
    /// Password input buffer (used when a session needs password).
    pub password_input: String,
    /// Whether we're in password input mode.
    pub entering_password: bool,
    /// Full terminal dimensions (for creating sessions with correct size).
    pub term_cols: u16,
    pub term_rows: u16,
    /// Which metric to display in tile sparklines.
    pub active_metric: MetricType,
    /// Which panel is highlighted in focus mode.
    pub focus_panel: FocusPanel,
    /// Whether we are selecting a panel or focused into one.
    pub focus_state: FocusState,
}

/// A `Dashboard` in specifications.
pub struct DashboardView<S> {
    pub sessions: Seq<S>,
    pub cols: usize,
    pub selected: usize,
    pub focused: Option<usize>,
    pub password_input: Seq<char>,
    pub entering_password: bool,
    pub term_cols: u16,
    pub term_rows: u16,
    pub active_metric: MetricType,
    pub focus_panel: FocusPanel,
    pub focus_state: FocusState,
}

impl<S> View for Dashboard<S> {
    type V = DashboardView<S>;

    open spec fn view(&self) -> DashboardView<S> {
        DashboardView {
            sessions: self.sessions@,
            cols: self.cols,
            selected: self.selected,
            focused: self.focused,
            password_input: self.password_input@,
            entering_password: self.entering_password,
            term_cols: self.term_cols,
            term_rows: self.term_rows,
            active_metric: self.active_metric,
            focus_panel: self.focus_panel,
            focus_state: self.focus_state,
        }
    }
}

/// Bytes for the input of the session at an index.
pub struct Delivery {
    pub session: usize,
    pub bytes: Vec<u8>,
}

/// A `Delivery` in specifications.
pub struct DeliveryView {
    pub session: usize,
    pub bytes: Seq<u8>,
}

impl View for Delivery {
    type V = DeliveryView;

    open spec fn view(&self) -> DeliveryView {
        DeliveryView { session: self.session, bytes: self.bytes@ }
    }
}

/// An optional delivery as specifications see it.
pub open spec fn delivery_view(delivery: Option<Delivery>) -> Option<DeliveryView> {
    match delivery {
        Some(delivery) => Some(delivery@),
        None => None,
    }
}

/// What is sent of a password: its UTF-8 encoding and a line feed.
pub open spec fn password_line(password: Seq<char>) -> Seq<u8> {
    vstd::utf8::encode_utf8(password.push('\n'))
}

/// `a - b`, or 0 if `b` is larger.
pub open spec fn less_by(a: u16, b: u16) -> u16 {
    if a >= b {
        (a - b) as u16
    } else {
        0
    }
}

/// The columns of a session's screen: those of the terminal but for the frame.
pub open spec fn screen_cols(term_cols: u16) -> u16 {
    less_by(term_cols, 2)
}

/// The rows of a session's screen: those of the terminal but for the frame and the status line.
pub open spec fn screen_rows(term_rows: u16) -> u16 {
    less_by(term_rows, 3)
}

/// The number of rows of a grid of `total` tiles in `cols` columns.
pub open spec fn grid_rows(total: int, cols: int) -> int {
    (total + cols - 1) / cols
}

/// The panel highlighted after moving from `panel` in a direction.
///
/// Layout grid:
/// ```text
/// [Sidebar] [Disk]    [SysInfo]
/// [Sidebar] [Main/Process]
/// [Terminal]
/// ```
pub open spec fn panel_towards(panel: FocusPanel, dir: NavDirection) -> FocusPanel {
    match (panel, dir) {
        (FocusPanel::Sidebar, NavDirection::Right) => FocusPanel::Disk,
        (FocusPanel::Sidebar, NavDirection::Down) => FocusPanel::Terminal,
        (FocusPanel::Disk, NavDirection::Left) => FocusPanel::Sidebar,
        (FocusPanel::Disk, NavDirection::Right) => FocusPanel::SysInfo,
        (FocusPanel::Disk, NavDirection::Down) => FocusPanel::Main,
        (FocusPanel::SysInfo, NavDirection::Left) => FocusPanel::Disk,
        (FocusPanel::SysInfo, NavDirection::Down) => FocusPanel::Main,
        (FocusPanel::Main, NavDirection::Left) => FocusPanel::Sidebar,
        (FocusPanel::Main, NavDirection::Up) => FocusPanel::Disk,
        (FocusPanel::Main, NavDirection::Down) => FocusPanel::Terminal,
        (FocusPanel::Terminal, NavDirection::Up) => FocusPanel::Main,
        (other, _) => other,
    }
}

impl<S> DashboardView<S> {
    /// A dashboard of these sessions in grid view.
    pub open spec fn opened(
        sessions: Seq<S>,
        cols: usize,
        term_cols: u16,
        term_rows: u16,
    ) -> DashboardView<S> {
        DashboardView {
            sessions,
            cols,
            selected: 0,
            focused: None,
            password_input: Seq::empty(),
            entering_password: false,
            term_cols,
            term_rows,
            active_metric: MetricType::Cpu,
            focus_panel: FocusPanel::Terminal,
            focus_state: FocusState::PanelSelect,
        }
    }

    /// Whether there are columns, a tile is selected if there is one, and a session that exists
    /// is focused if one is.
    pub open spec fn well_formed(self) -> bool {
        &&& self.cols > 0
        &&& self.sessions.len() <= usize::MAX
        &&& self.sessions.len() > 0 ==> self.selected < self.sessions.len()
        &&& self.sessions.len() == 0 ==> self.selected == 0
        &&& self.focus_exists()
    }

    /// Whether the focused session exists, if one is focused.
    pub open spec fn focus_exists(self) -> bool {
        match self.focused {
            Some(index) => index < self.sessions.len(),
            None => true,
        }
    }

    /// The same dashboard with these sessions in place of its own.
    pub open spec fn with_sessions<R>(self, sessions: Seq<R>) -> DashboardView<R> {
        DashboardView {
            sessions,
            cols: self.cols,
            selected: self.selected,
            focused: self.focused,
            password_input: self.password_input,
            entering_password: self.entering_password,
            term_cols: self.term_cols,
            term_rows: self.term_rows,
            active_metric: self.active_metric,
            focus_panel: self.focus_panel,
            focus_state: self.focus_state,
        }
    }

    /// With another tile selected.
    pub open spec fn selecting(self, selected: int) -> DashboardView<S> {
        DashboardView { selected: selected as usize, ..self }
    }

    /// One row up, if there is one.
    pub open spec fn moved_up(self) -> DashboardView<S> {
        if self.selected >= self.cols {
            self.selecting(self.selected - self.cols)
        } else {
            self
        }
    }

    /// One row down, if there is a tile.
    pub open spec fn moved_down(self) -> DashboardView<S> {
        if self.selected + self.cols < self.sessions.len() {
            self.selecting(self.selected + self.cols)
        } else {
            self
        }
    }

    /// One tile back, if there is one.
    pub open spec fn moved_left(self) -> DashboardView<S> {
        if self.selected > 0 {
            self.selecting(self.selected - 1)
        } else {
            self
        }
    }

    /// One tile on, if there is one.
    pub open spec fn moved_right(self) -> DashboardView<S> {
        if self.selected + 1 < self.sessions.len() {
            self.selecting(self.selected + 1)
        } else {
            self
        }
    }

    /// With the selected session focused and its terminal panel highlighted.
    pub open spec fn focusing(self) -> DashboardView<S> {
        DashboardView {
            focused: Some(self.selected),
            focus_panel: FocusPanel::Terminal,
            focus_state: FocusState::PanelSelect,
            ..self
        }
    }

    /// Back in grid view, with no password half entered.
    pub open spec fn unfocused(self) -> DashboardView<S> {
        DashboardView {
            focused: None,
            entering_password: false,
            password_input: Seq::empty(),
            focus_panel: FocusPanel::Terminal,
            focus_state: FocusState::PanelSelect,
            ..self
        }
    }

    /// With the highlight moved.
    pub open spec fn highlighting_towards(self, dir: NavDirection) -> DashboardView<S> {
        DashboardView { focus_panel: panel_towards(self.focus_panel, dir), ..self }
    }

    /// These bytes for the focused session, if there is one.
    pub open spec fn delivery(self, bytes: Seq<u8>) -> Option<DeliveryView> {
        match self.focused {
            Some(session) => Some(DeliveryView { session, bytes }),
            None => None,
        }
    }

    /// After the password has been handed over.
    pub open spec fn password_submitted(self) -> DashboardView<S> {
        DashboardView { password_input: Seq::empty(), entering_password: false, ..self }
    }

    /// With another metric shown.
    pub open spec fn showing(self, metric: MetricType) -> DashboardView<S> {
        DashboardView { active_metric: metric, ..self }
    }
}

impl<H, T> Dashboard<SessionData<H, T>> {
    /// A dashboard in grid view, with one session that is not connected yet for each host. The
    /// sessions have screens of the full terminal's size, so that the focused view renders them
    /// correctly.
    pub fn new(hosts: Vec<H>, cols: usize, term_cols: u16, term_rows: u16) -> (dashboard: Self)
        requires
            hosts@.len() > 0 ==> screen_rows(term_rows) >= 1,
        ensures
            dashboard@ == DashboardView::opened(
                hosts@.map_values(
                    |host: H|
                        SessionData::<H, T>::fresh(
                            host,
                            screen_cols(term_cols),
                            screen_rows(term_rows),
                        ),
                ),
                cols,
                term_cols,
                term_rows,
            ),
            cols > 0 ==> dashboard@.well_formed(),
    {
        let ghost fresh = |host: H|
            SessionData::<H, T>::fresh(host, screen_cols(term_cols), screen_rows(term_rows));
        let ghost all = hosts@;
        let mut sessions: Vec<SessionData<H, T>> = Vec::new();
        for host in it: hosts
            invariant
                it.seq() == all,
                all.len() > 0 ==> screen_rows(term_rows) >= 1,
                sessions@ == all.map_values(fresh).take(it.index()),
                fresh == (|host: H|
                    SessionData::<H, T>::fresh(
                        host,
                        screen_cols(term_cols),
                        screen_rows(term_rows),
                    )),
        {
            sessions.push(
                SessionData::new(host, term_cols.saturating_sub(2), term_rows.saturating_sub(3)),
            );
            assert(sessions@ =~= all.map_values(fresh).take(it.index() + 1));
        }
        assert(sessions@ =~= all.map_values(fresh));
        assert(sessions@.len() == sessions.len());
        Dashboard {
            sessions,
            cols,
            selected: 0,
            focused: None,
            password_input: String::new(),
            entering_password: false,
            term_cols,
            term_rows,
            active_metric: MetricType::Cpu,
            focus_panel: FocusPanel::Terminal,
            focus_state: FocusState::PanelSelect,
        }
    }
}

impl<S> Dashboard<S> {
    /// The same dashboard with these sessions, or handles to sessions, in place of its own.
    pub fn with_sessions<R>(self, sessions: Vec<R>) -> (dashboard: Dashboard<R>)
        ensures
            dashboard@ == self@.with_sessions(sessions@),
    {
        Dashboard {
            sessions,
            cols: self.cols,
            selected: self.selected,
            focused: self.focused,
            password_input: self.password_input,
            entering_password: self.entering_password,
            term_cols: self.term_cols,
            term_rows: self.term_rows,
            active_metric: self.active_metric,
            focus_panel: self.focus_panel,
            focus_state: self.focus_state,
        }
    }

    /// The number of sessions.
    pub fn total(&self) -> (total: usize)
        ensures
            total == self@.sessions.len(),
    {
        self.sessions.len()
    }

    /// The number of rows in the grid.
    pub fn rows(&self) -> (rows: usize)
        requires
            self.cols > 0,
            self@.sessions.len() + self.cols <= usize::MAX,
        ensures
            rows == grid_rows(self@.sessions.len() as int, self.cols as int),
    {
        (self.total() + self.cols - 1) / self.cols
    }

    /// Select the tile one row up.
    pub fn move_up(&mut self)
        ensures
            final(self)@ == old(self)@.moved_up(),
            old(self)@.well_formed() ==> final(self)@.well_formed(),
    {
        if self.selected >= self.cols {
            self.selected = self.selected - self.cols;
        }
    }

    /// Select the tile one row down.
    pub fn move_down(&mut self)
        requires
            old(self).selected + old(self).cols <= usize::MAX,
        ensures
            final(self)@ == old(self)@.moved_down(),
            old(self)@.well_formed() ==> final(self)@.well_formed(),
    {
        if self.selected + self.cols < self.total() {
            self.selected = self.selected + self.cols;
        }
    }

    /// Select the tile before.
    pub fn move_left(&mut self)
        ensures
            final(self)@ == old(self)@.moved_left(),
            old(self)@.well_formed() ==> final(self)@.well_formed(),
    {
        if self.selected > 0 {
            self.selected = self.selected - 1;
        }
    }

    /// Select the tile after.
    pub fn move_right(&mut self)
        requires
            old(self).selected < usize::MAX,
        ensures
            final(self)@ == old(self)@.moved_right(),
            old(self)@.well_formed() ==> final(self)@.well_formed(),
    {
        if self.selected + 1 < self.total() {
            self.selected = self.selected + 1;
        }
    }

    /// Enter focus mode on the currently selected tile, whose session's data is `data`.
    /// If the session is disconnected, it is reset, and is to be connected again: this is what
    /// the result says.
    pub fn focus<H, T>(&mut self, data: &mut SessionData<H, T>) -> (reconnect: bool)
        requires
            old(self).selected < old(self)@.sessions.len(),
            old(data).state is Disconnected ==> screen_rows(old(self).term_rows) >= 1,
        ensures
            final(self)@ == old(self)@.focusing(),
            old(self)@.well_formed() ==> final(self)@.well_formed(),
            reconnect == old(data).state is Disconnected,
            *final(data) == if reconnect {
                SessionData::fresh(
                    old(data).host,
                    screen_cols(old(self).term_cols),
                    screen_rows(old(self).term_rows),
                )
            } else {
                *old(data)
            },
    {
        self.focused = Some(self.selected);
        self.focus_panel = FocusPanel::Terminal;
        self.focus_state = FocusState::PanelSelect;
        data.reset_if_disconnected(
            self.term_cols.saturating_sub(2),
            self.term_rows.saturating_sub(3),
        )
    }

    /// Exit focus mode, return to grid.
    pub fn unfocus(&mut self)
        ensures
            final(self)@ == old(self)@.unfocused(),
            old(self)@.well_formed() ==> final(self)@.well_formed(),
    {
        self.focused = None;
        self.entering_password = false;
        self.password_input.clear();
        self.focus_panel = FocusPanel::Terminal;
        self.focus_state = FocusState::PanelSelect;
    }

    /// Move the panel selection highlight in the given direction.
    pub fn move_focus(&mut self, dir: NavDirection)
        ensures
            final(self)@ == old(self)@.highlighting_towards(dir),
            old(self)@.well_formed() ==> final(self)@.well_formed(),
    {
        self.focus_panel = match (self.focus_panel, dir) {
            // From Sidebar
            (FocusPanel::Sidebar, NavDirection::Right) => FocusPanel::Disk,
            (FocusPanel::Sidebar, NavDirection::Down) => FocusPanel::Terminal,
            // From Disk
            (FocusPanel::Disk, NavDirection::Left) => FocusPanel::Sidebar,
            (FocusPanel::Disk, NavDirection::Right) => FocusPanel::SysInfo,
            (FocusPanel::Disk, NavDirection::Down) => FocusPanel::Main,
            // From SysInfo
            (FocusPanel::SysInfo, NavDirection::Left) => FocusPanel::Disk,
            (FocusPanel::SysInfo, NavDirection::Down) => FocusPanel::Main,
            // From Main
            (FocusPanel::Main, NavDirection::Left) => FocusPanel::Sidebar,
            (FocusPanel::Main, NavDirection::Up) => FocusPanel::Disk,
            (FocusPanel::Main, NavDirection::Down) => FocusPanel::Terminal,
            // From Terminal
            (FocusPanel::Terminal, NavDirection::Up) => FocusPanel::Main,
            // No-op for all other directions
            (current, _) => current,
        };
    }

    /// Input bytes for the focused session; none in grid view.
    pub fn send_input(&self, data: Vec<u8>) -> (delivery: Option<Delivery>)
        requires
            self@.focus_exists(),
        ensures
            delivery_view(delivery) == self@.delivery(data@),
            delivery is Some <==> self.focused is Some,
            delivery matches Some(sent) ==> self.focused == Some(sent.session) && sent.bytes@
                == data@,
    {
        match self.focused {
            Some(session) => Some(Delivery { session, bytes: data }),
            None => None,
        }
    }

    /// The password, ended by a line feed, for the focused session; none in grid view.
    pub fn password_delivery(&self) -> (delivery: Option<Delivery>)
        requires
            self@.focus_exists(),
        ensures
            delivery_view(delivery) == self@.delivery(password_line(self@.password_input)),
            delivery is Some <==> self.focused is Some,
            delivery matches Some(sent) ==> self.focused == Some(sent.session) && sent.bytes@
                == vstd::utf8::encode_utf8(self.password_input@.push('\n')),
    {
        match self.focused {
            Some(session) => {
                let mut line = self.password_input.clone();
                line.push('\n');
                Some(Delivery { session, bytes: line.as_str().as_bytes_vec() })
            },
            None => None,
        }
    }

    /// Forget the password and leave password input mode.
    pub fn forget_password(&mut self)
        ensures
            final(self)@ == old(self)@.password_submitted(),
            old(self)@.well_formed() ==> final(self)@.well_formed(),
    {
        self.password_input.clear();
        self.entering_password = false;
    }

    /// Submit the password, ended by a line feed, to the focused session. It is forgotten here,
    /// also if no session is focused.
    pub fn submit_password(&mut self) -> (delivery: Option<Delivery>)
        requires
            old(self)@.focus_exists(),
        ensures
            final(self)@ == old(self)@.password_submitted(),
            old(self)@.well_formed() ==> final(self)@.well_formed(),
            delivery_view(delivery) == old(self)@.delivery(
                password_line(old(self)@.password_input),
            ),
            delivery is Some <==> old(self).focused is Some,
            delivery matches Some(sent) ==> old(self).focused == Some(sent.session) && sent.bytes@
                == vstd::utf8::encode_utf8(old(self).password_input@.push('\n')),
    {
        let delivery = self.password_delivery();
        self.forget_password();
        delivery
    }

    /// Cycle active metric: CPU, Mem, Net, and CPU again.
    pub fn cycle_metric(&mut self)
        ensures
            final(self)@ == old(self)@.showing(old(self).active_metric.following()),
            old(self)@.well_formed() ==> final(self)@.well_formed(),
    {
        self.active_metric = self.active_metric.next();
    }

    /// Set metric directly.
    pub fn set_metric(&mut self, metric: MetricType)
        ensures
            final(self)@ == old(self)@.showing(metric),
            old(self)@.well_formed() ==> final(self)@.well_formed(),
    {
        self.active_metric = metric;
    }
}

/// A new dashboard is well formed, and every operation keeps it so: a tile stays selected, and a
/// focused session exists.
pub proof fn law_operations_keep_well_formed<S>(
    dashboard: DashboardView<S>,
    dir: NavDirection,
    metric: MetricType,
)
    requires
        dashboard.well_formed(),
    ensures
        DashboardView::opened(
            dashboard.sessions,
            dashboard.cols,
            dashboard.term_cols,
            dashboard.term_rows,
        ).well_formed(),
        dashboard.moved_up().well_formed(),
        dashboard.moved_down().well_formed(),
        dashboard.moved_left().well_formed(),
        dashboard.moved_right().well_formed(),
        dashboard.sessions.len() > 0 ==> dashboard.focusing().well_formed(),
        dashboard.unfocused().well_formed(),
        dashboard.highlighting_towards(dir).well_formed(),
        dashboard.password_submitted().well_formed(),
        dashboard.showing(metric).well_formed(),
{
}

/// Putting other sessions in place changes nothing else, whether or not the ones before are still
/// there, and as many of them as before leave the dashboard well formed.
pub proof fn law_with_sessions_keeps_the_rest<S, R>(
    dashboard: DashboardView<S>,
    sessions: Seq<R>,
)
    ensures
        (DashboardView { sessions: Seq::empty(), ..dashboard }).with_sessions(sessions)
            == dashboard.with_sessions(sessions),
        dashboard.with_sessions(sessions).with_sessions(dashboard.sessions) == dashboard,
        dashboard.with_sessions(sessions).sessions == sessions,
        dashboard.with_sessions(sessions).cols == dashboard.cols,
        dashboard.with_sessions(sessions).selected == dashboard.selected,
        dashboard.with_sessions(sessions).focused == dashboard.focused,
        dashboard.with_sessions(sessions).password_input == dashboard.password_input,
        dashboard.with_sessions(sessions).entering_password == dashboard.entering_password,
        dashboard.with_sessions(sessions).term_cols == dashboard.term_cols,
        dashboard.with_sessions(sessions).term_rows == dashboard.term_rows,
        dashboard.with_sessions(sessions).active_metric == dashboard.active_metric,
        dashboard.with_sessions(sessions).focus_panel == dashboard.focus_panel,
        dashboard.with_sessions(sessions).focus_state == dashboard.focus_state,
        dashboard.well_formed() && sessions.len() == dashboard.sessions.len()
            ==> dashboard.with_sessions(sessions).well_formed(),
{
}

/// The grid has room for all tiles, and no row of it is empty.
pub proof fn law_grid_rows_fit(total: int, cols: int)
    requires
        0 <= total,
        0 < cols,
    ensures
        total <= grid_rows(total, cols) * cols,
        total > 0 ==> (grid_rows(total, cols) - 1) * cols < total,
        total == 0 ==> grid_rows(total, cols) == 0,
{
    let sum = total + cols - 1;
    let rows = grid_rows(total, cols);
    vstd::arithmetic::div_mod::lemma_fundamental_div_mod(sum, cols);
    assert(cols * rows == rows * cols) by (nonlinear_arith);
    assert((rows - 1) * cols == rows * cols - cols) by (nonlinear_arith);
    if total == 0 {
        vstd::arithmetic::div_mod::lemma_basic_div(sum, cols);
    }
}

/// The selected tile stands in a row of the grid.
pub proof fn law_selected_tile_is_in_the_grid<S>(dashboard: DashboardView<S>)
    requires
        dashboard.well_formed(),
        dashboard.sessions.len() > 0,
    ensures
        dashboard.selected as int / dashboard.cols as int <= grid_rows(
            dashboard.sessions.len() as int,
            dashboard.cols as int,
        ) - 1,
{
    let (total, cols) = (dashboard.sessions.len() as int, dashboard.cols as int);
    vstd::arithmetic::div_mod::lemma_div_is_ordered(dashboard.selected as int, total - 1, cols);
    vstd::arithmetic::div_mod::lemma_div_plus_one(total - 1, cols);
    assert(total - 1 + cols == total + cols - 1);
}

/// Moving up or down changes the row by one and keeps the column.
pub proof fn law_vertical_moves_keep_the_column<S>(dashboard: DashboardView<S>)
    requires
        dashboard.well_formed(),
    ensures
        ({
            let cols = dashboard.cols as int;
            let (here, up, down) = (
                dashboard.selected as int,
                dashboard.moved_up().selected as int,
                dashboard.moved_down().selected as int,
            );
            &&& up % cols == here % cols
            &&& down % cols == here % cols
            &&& up != here ==> up / cols == here / cols - 1
            &&& down != here ==> down / cols == here / cols + 1
        }),
{
    let cols = dashboard.cols as int;
    let here = dashboard.selected as int;
    vstd::arithmetic::div_mod::lemma_div_plus_one(here, cols);
    vstd::arithmetic::div_mod::lemma_mod_add_multiples_vanish(here, cols);
    if here >= cols {
        vstd::arithmetic::div_mod::lemma_div_plus_one(here - cols, cols);
        vstd::arithmetic::div_mod::lemma_mod_add_multiples_vanish(here - cols, cols);
    }
}

/// A move that changes the selection is undone by the move in the opposite direction.
pub proof fn law_opposite_moves_undo_each_other<S>(dashboard: DashboardView<S>)
    requires
        dashboard.well_formed(),
    ensures
        dashboard.moved_up() != dashboard ==> dashboard.moved_up().moved_down() == dashboard,
        dashboard.moved_down() != dashboard ==> dashboard.moved_down().moved_up() == dashboard,
        dashboard.moved_left() != dashboard ==> dashboard.moved_left().moved_right() == dashboard,
        dashboard.moved_right() != dashboard ==> dashboard.moved_right().moved_left() == dashboard,
{
}

/// Leaving focus mode undoes entering it, whatever panel was highlighted and whatever was typed as
/// a password meanwhile.
pub proof fn law_unfocus_undoes_focus<S>(
    dashboard: DashboardView<S>,
    panel: FocusPanel,
    state: FocusState,
    typed: Seq<char>,
    entering: bool,
)
    requires
        dashboard.unfocused() == dashboard,
    ensures
        (DashboardView {
            focus_panel: panel,
            focus_state: state,
            password_input: typed,
            entering_password: entering,
            ..dashboard.focusing()
        }).unfocused() == dashboard,
{
    assert(dashboard.password_input == dashboard.unfocused().password_input);
}

/// Once submitted, a password is forgotten: submitting again delivers an empty line.
pub proof fn law_password_is_delivered_once<S>(dashboard: DashboardView<S>)
    ensures
        dashboard.password_submitted().password_input.len() == 0,
        !dashboard.password_submitted().entering_password,
        dashboard.password_submitted().delivery(
            password_line(dashboard.password_submitted().password_input),
        ) == dashboard.delivery(password_line(Seq::empty())),
{
}

/// Nothing is delivered in grid view, and in focus mode only to the focused session.
pub proof fn law_input_goes_to_the_focused_session<S>(
    dashboard: DashboardView<S>,
    bytes: Seq<u8>,
)
    ensures
        dashboard.unfocused().delivery(bytes) is None,
        dashboard.focusing().delivery(bytes) == Some(
            DeliveryView { session: dashboard.selected, bytes },
        ),
{
}

/// Every panel can be reached from the terminal panel, where focus mode starts, and moving down
/// twice leads back to it from anywhere.
pub proof fn law_panels_are_connected(panel: FocusPanel)
    ensures
        panel_towards(panel_towards(panel, NavDirection::Down), NavDirection::Down)
            == FocusPanel::Terminal,
        ({
            let main = panel_towards(FocusPanel::Terminal, NavDirection::Up);
            let disk = panel_towards(main, NavDirection::Up);
            ||| panel == FocusPanel::Terminal
            ||| panel == main
            ||| panel == disk
            ||| panel == panel_towards(main, NavDirection::Left)
            ||| panel == panel_towards(disk, NavDirection::Right)
        }),
{
}

/// Moving right and back left, where right leads anywhere, returns to the panel. Moving up and
/// back down does too.
pub proof fn law_panel_moves_come_back(panel: FocusPanel)
    ensures
        panel_towards(panel, NavDirection::Right) != panel ==> panel_towards(
            panel_towards(panel, NavDirection::Right),
            NavDirection::Left,
        ) == panel,
        panel_towards(panel, NavDirection::Up) != panel ==> panel_towards(
            panel_towards(panel, NavDirection::Up),
            NavDirection::Down,
        ) == panel,
{
}

/// Specifications see every field of a dashboard as it is, and a delivery likewise.
pub proof fn law_dashboard_views_hold_every_field<S>(dashboard: Dashboard<S>, delivery: Delivery)
    ensures
        dashboard@.sessions == dashboard.sessions@,
        dashboard@.cols == dashboard.cols,
        dashboard@.selected == dashboard.selected,
        dashboard@.focused == dashboard.focused,
        dashboard@.password_input == dashboard.password_input@,
        dashboard@.entering_password == dashboard.entering_password,
        dashboard@.term_cols == dashboard.term_cols,
        dashboard@.term_rows == dashboard.term_rows,
        dashboard@.active_metric == dashboard.active_metric,
        dashboard@.focus_panel == dashboard.focus_panel,
        dashboard@.focus_state == dashboard.focus_state,
        delivery@.session == delivery.session,
        delivery@.bytes == delivery.bytes@,
        delivery_view(Some(delivery)) == Some(delivery@),
        delivery_view(None) is None,
{
}

/// A dashboard opens in grid view on the first tile, with nothing typed, showing the CPU.
pub proof fn law_dashboard_opens_in_grid_view<S>(
    sessions: Seq<S>,
    cols: usize,
    term_cols: u16,
    term_rows: u16,
)
    ensures
        ({
            let dashboard = DashboardView::opened(sessions, cols, term_cols, term_rows);
            &&& dashboard.sessions == sessions
            &&& dashboard.cols == cols
            &&& dashboard.term_cols == term_cols
            &&& dashboard.term_rows == term_rows
            &&& dashboard.selected == 0
            &&& dashboard.focused is None
            &&& dashboard.password_input.len() == 0
            &&& !dashboard.entering_password
            &&& dashboard.active_metric is Cpu
            &&& dashboard.focus_panel is Terminal
            &&& dashboard.focus_state is PanelSelect
        }),
{
}

/// A session's screen is two columns and three rows smaller than the terminal, but never of
/// negative size.
pub proof fn law_screens_leave_room_for_the_frame(term_cols: u16, term_rows: u16)
    ensures
        term_cols >= 2 ==> screen_cols(term_cols) + 2 == term_cols,
        term_cols < 2 ==> screen_cols(term_cols) == 0,
        term_rows >= 3 ==> screen_rows(term_rows) + 3 == term_rows,
        term_rows < 3 ==> screen_rows(term_rows) == 0,
{
}

/// A dashboard is well formed exactly if it has columns, its selection is a tile, or 0 if there are
/// none, and its focus, if any, is a session.
pub proof fn law_well_formed_selects_and_focuses_sessions<S>(dashboard: DashboardView<S>)
    requires
        dashboard.sessions.len() <= usize::MAX,
    ensures
        dashboard.well_formed() <==> dashboard.cols >= 1 && (dashboard.selected == 0
            || dashboard.selected < dashboard.sessions.len()) && (dashboard.focused is None
            || dashboard.focused->0 < dashboard.sessions.len()),
        dashboard.focus_exists() <==> (dashboard.focused is None || dashboard.focused->0
            < dashboard.sessions.len()),
{
}

/// A move in the grid changes the selection only. Up and down go by a row's width, left and right
/// by one tile, and a move that would leave the grid goes nowhere.
pub proof fn law_grid_moves_change_the_selection_only<S>(dashboard: DashboardView<S>)
    requires
        dashboard.sessions.len() <= usize::MAX,
    ensures
        ({
            let (here, cols, total) = (
                dashboard.selected as int,
                dashboard.cols as int,
                dashboard.sessions.len() as int,
            );
            let (up, down, left, right) = (
                dashboard.moved_up(),
                dashboard.moved_down(),
                dashboard.moved_left(),
                dashboard.moved_right(),
            );
            &&& dashboard == (DashboardView { selected: dashboard.selected, ..up })
            &&& dashboard == (DashboardView { selected: dashboard.selected, ..down })
            &&& dashboard == (DashboardView { selected: dashboard.selected, ..left })
            &&& dashboard == (DashboardView { selected: dashboard.selected, ..right })
            &&& here - cols >= 0 ==> up.selected + cols == here
            &&& here - cols < 0 ==> up.selected == here
            &&& here + cols < total ==> down.selected - cols == here
            &&& here + cols >= total ==> down.selected == here
            &&& here - 1 >= 0 ==> left.selected + 1 == here
            &&& here == 0 ==> left.selected == 0
            &&& here + 1 < total ==> right.selected - 1 == here
            &&& here + 1 >= total ==> right.selected == here
        }),
{
}

/// Focusing is on the selected tile and starts at the terminal panel, where a panel is selected. It
/// changes nothing else.
pub proof fn law_focus_is_on_the_selected_tile<S>(dashboard: DashboardView<S>)
    ensures
        dashboard.focusing().focused == Some(dashboard.selected),
        dashboard.focusing().focus_panel is Terminal,
        dashboard.focusing().focus_state is PanelSelect,
        dashboard == (DashboardView {
            focused: dashboard.focused,
            focus_panel: dashboard.focus_panel,
            focus_state: dashboard.focus_state,
            ..dashboard.focusing()
        }),
{
}

/// Leaving focus mode returns to grid view, forgets what was typed as a password and resets the
/// panels. It changes nothing else.
pub proof fn law_unfocus_returns_to_the_grid<S>(dashboard: DashboardView<S>)
    ensures
        dashboard.unfocused().focused is None,
        !dashboard.unfocused().entering_password,
        dashboard.unfocused().password_input.len() == 0,
        dashboard.unfocused().focus_panel is Terminal,
        dashboard.unfocused().focus_state is PanelSelect,
        dashboard == (DashboardView {
            focused: dashboard.focused,
            entering_password: dashboard.entering_password,
            password_input: dashboard.password_input,
            focus_panel: dashboard.focus_panel,
            focus_state: dashboard.focus_state,
            ..dashboard.unfocused()
        }),
{
}

/// Which panel lies in each direction of each panel. Where none does, the highlight stays. Moving
/// it changes nothing else.
pub proof fn law_highlight_follows_the_layout<S>(dashboard: DashboardView<S>)
    ensures
        ({
            let here = dashboard.focus_panel;
            let left = dashboard.highlighting_towards(NavDirection::Left).focus_panel;
            let right = dashboard.highlighting_towards(NavDirection::Right).focus_panel;
            let up = dashboard.highlighting_towards(NavDirection::Up).focus_panel;
            let down = dashboard.highlighting_towards(NavDirection::Down).focus_panel;
            &&& left == if here is Disk || here is Main {
                FocusPanel::Sidebar
            } else if here is SysInfo {
                FocusPanel::Disk
            } else {
                here
            }
            &&& right == if here is Sidebar {
                FocusPanel::Disk
            } else if here is Disk {
                FocusPanel::SysInfo
            } else {
                here
            }
            &&& up == if here is Terminal {
                FocusPanel::Main
            } else if here is Main {
                FocusPanel::Disk
            } else {
                here
            }
            &&& down == if here is Disk || here is SysInfo {
                FocusPanel::Main
            } else {
                FocusPanel::Terminal
            }
        }),
        forall|dir: NavDirection|
            dashboard == (DashboardView {
                focus_panel: dashboard.focus_panel,
                ..(#[trigger] dashboard.highlighting_towards(dir))
            }),
        forall|dir: NavDirection|
            (#[trigger] dashboard.highlighting_towards(dir)).focus_panel == panel_towards(
                dashboard.focus_panel,
                dir,
            ),
{
}

/// Whatever tile is selected, whatever panel is highlighted or focused and whatever has been typed,
/// bytes are delivered unchanged to the focused session, and to none if none is focused.
pub proof fn law_bytes_are_delivered_to_the_focused_session<S>(
    dashboard: DashboardView<S>,
    index: usize,
    bytes: Seq<u8>,
)
    ensures
        dashboard.focused == Some(index) <==> dashboard.delivery(bytes) is Some
            && dashboard.delivery(bytes)->0.session == index,
        dashboard.focused is None <==> dashboard.delivery(bytes) is None,
        dashboard.delivery(bytes) is Some ==> dashboard.delivery(bytes)->0.bytes == bytes,
{
}

/// The line sent for a password is UTF-8 for the password and a line feed.
pub proof fn law_password_line_reads_as_password_and_line_feed(password: Seq<char>)
    ensures
        vstd::utf8::valid_utf8(password_line(password)),
        vstd::utf8::decode_utf8(password_line(password)) == password + seq!['\n'],
{
    vstd::utf8::encode_utf8_valid_utf8(password.push('\n'));
    vstd::utf8::encode_utf8_decode_utf8(password.push('\n'));
    assert(password.push('\n') =~= password + seq!['\n']);
}

/// Handing the password over clears it and leaves password input mode. Showing a metric shows that
/// metric. Neither changes anything else.
pub proof fn law_password_and_metric_change_nothing_else<S>(
    dashboard: DashboardView<S>,
    metric: MetricType,
)
    ensures
        dashboard.password_submitted().password_input.len() == 0,
        !dashboard.password_submitted().entering_password,
        dashboard == (DashboardView {
            password_input: dashboard.password_input,
            entering_password: dashboard.entering_password,
            ..dashboard.password_submitted()
        }),
        dashboard.showing(metric).active_metric == metric,
        dashboard == (DashboardView {
            active_metric: dashboard.active_metric,
            ..dashboard.showing(metric)
        }),
{
}

} // verus!
