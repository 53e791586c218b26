use vstd::prelude::*;

verus! {

/// The garbage sent for a given combo length, capped at eleven; the running
/// combo count indexes this table when scoring combo bonuses.
pub open spec fn spec_combo_garbage(i: int) -> int {
    if i <= 1 {
        0
    } else if i <= 3 {
        1
    } else if i <= 5 {
        2
    } else if i <= 7 {
        3
    } else if i <= 10 {
        4
    } else {
        5
    }
}

/// Looks up the combo-garbage table for a capped combo length.
pub fn combo_garbage(i: usize) -> (r: u32)
    requires
        i <= 11,
    ensures
        r == spec_combo_garbage(i as int),
        r <= 5,
{
    if i <= 1 {
        0
    } else if i <= 3 {
        1
    } else if i <= 5 {
        2
    } else if i <= 7 {
        3
    } else if i <= 10 {
        4
    } else {
        5
    }
}

/// The standard weight vector: one signed coefficient per scoring term.
/// Loaded once per decision session and never mutated during evaluation.
#[derive(Clone, Debug, PartialEq, Eq, Hash)]
pub struct Standard {
    pub back_to_back: i32,
    pub bumpiness: i32,
    pub bumpiness_sq: i32,
    pub row_transitions: i32,
    pub height: i32,
    pub top_half: i32,
    pub top_quarter: i32,
    pub jeopardy: i32,
    pub cavity_cells: i32,
    pub cavity_cells_sq: i32,
    pub overhang_cells: i32,
    pub overhang_cells_sq: i32,
    pub covered_cells: i32,
    pub covered_cells_sq: i32,
    pub tslot: [i32; 4],
    pub well_depth: i32,
    pub max_well_depth: i32,
    pub well_column: [i32; 10],
    pub b2b_clear: i32,
    pub clear1: i32,
    pub clear2: i32,
    pub clear3: i32,
    pub clear4: i32,
    pub tspin1: i32,
    pub tspin2: i32,
    pub tspin3: i32,
    pub mini_tspin1: i32,
    pub mini_tspin2: i32,
    pub perfect_clear: i32,
    pub combo_garbage: i32,
    pub move_time: i32,
    pub wasted_t: i32,
    pub use_bag: bool,
    pub timed_jeopardy: bool,
    pub stack_pc_damage: bool,
    pub sub_name: Option<String>,
}

impl Standard {
    /// Every coefficient lies in a comfortable range, which keeps all score
    /// arithmetic far from overflow. Both canonical presets satisfy it.
    pub open spec fn bounded(self) -> bool {
        &&& -2000 <= self.back_to_back <= 2000
        &&& -2000 <= self.bumpiness <= 2000
        &&& -2000 <= self.bumpiness_sq <= 2000
        &&& -2000 <= self.row_transitions <= 2000
        &&& -2000 <= self.height <= 2000
        &&& -2000 <= self.top_half <= 2000
        &&& -2000 <= self.top_quarter <= 2000
        &&& -2000 <= self.jeopardy <= 2000
        &&& -2000 <= self.cavity_cells <= 2000
        &&& -2000 <= self.cavity_cells_sq <= 2000
        &&& -2000 <= self.overhang_cells <= 2000
        &&& -2000 <= self.overhang_cells_sq <= 2000
        &&& -2000 <= self.covered_cells <= 2000
        &&& -2000 <= self.covered_cells_sq <= 2000
        &&& forall|i: int| 0 <= i < 4 ==> -2000 <= #[trigger] self.tslot@[i] <= 2000
        &&& -2000 <= self.well_depth <= 2000
        &&& -2000 <= self.max_well_depth <= 2000
        &&& forall|i: int| 0 <= i < 10 ==> -2000 <= #[trigger] self.well_column@[i] <= 2000
        &&& -2000 <= self.b2b_clear <= 2000
        &&& -2000 <= self.clear1 <= 2000
        &&& -2000 <= self.clear2 <= 2000
        &&& -2000 <= self.clear3 <= 2000
        &&& -2000 <= self.clear4 <= 2000
        &&& -2000 <= self.tspin1 <= 2000
        &&& -2000 <= self.tspin2 <= 2000
        &&& -2000 <= self.tspin3 <= 2000
        &&& -2000 <= self.mini_tspin1 <= 2000
        &&& -2000 <= self.mini_tspin2 <= 2000
        &&& -2000 <= self.perfect_clear <= 2000
        &&& -2000 <= self.combo_garbage <= 2000
        &&& -2000 <= self.move_time <= 2000
        &&& -2000 <= self.wasted_t <= 2000
    }

    /// The "fast" preset of the weight vector.
    pub fn fast_config() -> (r: Self)
        ensures
            r.bounded(),
            r.back_to_back == 10,
            r.bumpiness == -7,
            r.bumpiness_sq == -28,
            r.row_transitions == -5,
            r.height == -46,
            r.top_half == -126,
            r.top_quarter == -493,
            r.jeopardy == -11,
            r.cavity_cells == -176,
            r.cavity_cells_sq == -6,
            r.overhang_cells == -47,
            r.overhang_cells_sq == -9,
            r.covered_cells == -25,
            r.covered_cells_sq == 1,
            r.tslot@[0] == 0 && r.tslot@[1] == 150 && r.tslot@[2] == 296 && r.tslot@[3] == 207,
            r.well_depth == 158,
            r.max_well_depth == -2,
            r.well_column@[0] == 31 && r.well_column@[1] == 16 && r.well_column@[2] == -41
                && r.well_column@[3] == 37 && r.well_column@[4] == 49 && r.well_column@[5] == 30
                && r.well_column@[6] == 56 && r.well_column@[7] == 48 && r.well_column@[8] == -27
                && r.well_column@[9] == 22,
            r.b2b_clear == 74,
            r.clear1 == -122,
            r.clear2 == -174,
            r.clear3 == 11,
            r.clear4 == 424,
            r.tspin1 == 131,
            r.tspin2 == 392,
            r.tspin3 == 628,
            r.mini_tspin1 == -188,
            r.mini_tspin2 == -682,
            r.perfect_clear == 991,
            r.combo_garbage == 272,
            r.move_time == -1,
            r.wasted_t == -147,
            r.use_bag == true,
            r.timed_jeopardy == false,
            r.stack_pc_damage == false,
            r.sub_name == Option::<String>::None,
    {
        Standard {
            back_to_back: 10,
            bumpiness: -7,
            bumpiness_sq: -28,
            row_transitions: -5,
            height: -46,
            top_half: -126,
            top_quarter: -493,
            jeopardy: -11,
            cavity_cells: -176,
            cavity_cells_sq: -6,
            overhang_cells: -47,
            overhang_cells_sq: -9,
            covered_cells: -25,
            covered_cells_sq: 1,
            tslot: [0, 150, 296, 207],
            well_depth: 158,
            max_well_depth: -2,
            well_column: [31, 16, -41, 37, 49, 30, 56, 48, -27, 22],
            b2b_clear: 74,
            clear1: -122,
            clear2: -174,
            clear3: 11,
            clear4: 424,
            tspin1: 131,
            tspin2: 392,
            tspin3: 628,
            mini_tspin1: -188,
            mini_tspin2: -682,
            perfect_clear: 991,
            combo_garbage: 272,
            move_time: -1,
            wasted_t: -147,
            use_bag: true,
            timed_jeopardy: false,
            stack_pc_damage: false,
            sub_name: None,
        }
    }
}

impl Default for Standard {
    /// The default preset of the weight vector.
    fn default() -> (r: Self)
        ensures
            r.bounded(),
            r.back_to_back == 52,
            r.bumpiness == -24,
            r.bumpiness_sq == -7,
            r.row_transitions == -5,
            r.height == -39,
            r.top_half == -150,
            r.top_quarter == -511,
            r.jeopardy == -11,
            r.cavity_cells == -173,
            r.cavity_cells_sq == -3,
            r.overhang_cells == -34,
            r.overhang_cells_sq == -1,
            r.covered_cells == -17,
            r.covered_cells_sq == -1,
            r.tslot@[0] == 8 && r.tslot@[1] == 148 && r.tslot@[2] == 192 && r.tslot@[3] == 407,
            r.well_depth == 57,
            r.max_well_depth == 17,
            r.well_column@[0] == 20 && r.well_column@[1] == 23 && r.well_column@[2] == 20
                && r.well_column@[3] == 50 && r.well_column@[4] == 59 && r.well_column@[5] == 21
                && r.well_column@[6] == 59 && r.well_column@[7] == 10 && r.well_column@[8] == -10
                && r.well_column@[9] == 24,
            r.b2b_clear == 104,
            r.clear1 == -143,
            r.clear2 == -100,
            r.clear3 == -58,
            r.clear4 == 390,
            r.tspin1 == 121,
            r.tspin2 == 410,
            r.tspin3 == 602,
            r.mini_tspin1 == -158,
            r.mini_tspin2 == -93,
            r.perfect_clear == 999,
            r.combo_garbage == 150,
            r.move_time == -3,
            r.wasted_t == -152,
            r.use_bag == true,
            r.timed_jeopardy == false,
            r.stack_pc_damage == false,
            r.sub_name == Option::<String>::None,
    {
        Standard {
            back_to_back: 52,
            bumpiness: -24,
            bumpiness_sq: -7,
            row_transitions: -5,
            height: -39,
            top_half: -150,
            top_quarter: -511,
            jeopardy: -11,
            cavity_cells: -173,
            cavity_cells_sq: -3,
            overhang_cells: -34,
            overhang_cells_sq: -1,
            covered_cells: -17,
            covered_cells_sq: -1,
            tslot: [8, 148, 192, 407],
            well_depth: 57,
            max_well_depth: 17,
            well_column: [20, 23, 20, 50, 59, 21, 59, 10, -10, 24],
            b2b_clear: 104,
            clear1: -143,
            clear2: -100,
            clear3: -58,
            clear4: 390,
            tspin1: 121,
            tspin2: 410,
            tspin3: 602,
            mini_tspin1: -158,
            mini_tspin2: -93,
            perfect_clear: 999,
            combo_garbage: 150,
            move_time: -3,
            wasted_t: -152,
            use_bag: true,
            timed_jeopardy: false,
            stack_pc_damage: false,
            sub_name: None,
        }
    }
}

} // verus!
