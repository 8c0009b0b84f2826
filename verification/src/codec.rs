//! The on-disk representation of the persisted state: a pretty-printed
//! JSON object with fixed keys in a fixed order. The encoder and parser are both defined at
//! the specification level and mirrored by executable code, and a round-trip
//! lemma shows that parsing an encoding always restores the encoded state.

use vstd::prelude::*;

use crate::json::emit_bool;
use crate::json::emit_i32;
use crate::json::emit_lit;
use crate::json::emit_null;
use crate::json::emit_str;
use crate::json::emit_usize;
use crate::json::enc_bool;
use crate::json::enc_int;
use crate::json::enc_nat;
use crate::json::enc_opt_str;
use crate::json::enc_str;
use crate::json::expect_lit;
use crate::json::is_digit;
use crate::json::lemma_match_at_concat;
use crate::json::lemma_match_at_index;
use crate::json::lemma_parse_bool_enc;
use crate::json::lemma_parse_i32_enc;
use crate::json::lemma_parse_opt_str_enc;
use crate::json::lemma_parse_str_enc;
use crate::json::lemma_parse_usize_enc;
use crate::json::match_at;
use crate::json::p_bool;
use crate::json::p_i32;
use crate::json::p_opt_str;
use crate::json::p_str;
use crate::json::p_usize;
use crate::json::parse_bool;
use crate::json::parse_i32;
use crate::json::parse_opt_str;
use crate::json::parse_str;
use crate::json::parse_usize;
use crate::state::AppState;
use crate::state::AppStateV;
use crate::state::PanelState;
use crate::state::TabState;
use crate::state::TabStateV;
use crate::state::WindowBounds;
use crate::state::default_app_state;
use crate::state::tabs_view;

verus! {

// ----------------------------------------------------------------------
// Specification-level encoder.
// ----------------------------------------------------------------------

/// Encoding of the window-geometry record.
pub open spec fn enc_window_bounds(w: WindowBounds) -> Seq<u8> {
    l_wb_x() + (enc_int(w.x as int) + (l_wb_y() + (enc_int(w.y as int) + (l_wb_w() + (enc_int(
        w.width as int,
    ) + (l_wb_h() + (enc_int(w.height as int) + (l_wb_m() + (enc_bool(w.is_maximized)
        + l_obj_close())))))))))
}

/// Encoding of the panel-layout record.
pub open spec fn enc_panel_state(p: PanelState) -> Seq<u8> {
    l_ps_lw() + (enc_int(p.left_panel_width as int) + (l_ps_bh() + (enc_int(
        p.bottom_panel_height as int,
    ) + (l_ps_lt() + (enc_nat(p.selected_left_tab as nat) + (l_ps_mt() + (enc_nat(
        p.selected_main_tab as nat,
    ) + (l_ps_bt() + (enc_nat(p.selected_bottom_tab as nat) + l_obj_close())))))))))
}

/// Encoding of one open tab.
pub open spec fn enc_tab(t: TabStateV) -> Seq<u8> {
    l_tab_name() + (enc_str(t.name) + (l_tab_path() + (enc_opt_str(t.file_path) + (l_tab_dirty()
        + (enc_bool(t.is_dirty) + l_tab_close())))))
}

/// Encoding of the elements of a tab list after the first one: each is
/// preceded by a comma.
pub open spec fn enc_tabs_rest(ts: Seq<TabStateV>) -> Seq<u8>
    decreases ts.len(),
{
    if ts.len() == 0 {
        Seq::empty()
    } else {
        l_arr_comma() + (enc_tab(ts[0]) + enc_tabs_rest(ts.drop_first()))
    }
}

/// Encoding of the tab list.
pub open spec fn enc_tabs(ts: Seq<TabStateV>) -> Seq<u8> {
    if ts.len() == 0 {
        l_arr_empty()
    } else {
        l_arr_open() + (enc_tab(ts[0]) + (enc_tabs_rest(ts.drop_first()) + l_arr_close()))
    }
}

/// Encoding of the complete persisted state.
pub open spec fn spec_encode_app_state(v: AppStateV) -> Seq<u8> {
    l_app_wb() + (enc_window_bounds(v.window_bounds) + (l_app_ps() + (enc_panel_state(
        v.panel_state,
    ) + (l_app_tabs() + (enc_tabs(v.open_tabs) + (l_app_ver() + (enc_str(v.version)
        + l_app_close())))))))
}

// ----------------------------------------------------------------------
// Specification-level parser.
// ----------------------------------------------------------------------

/// Parses the window-geometry record at `i`.
pub open spec fn parse_window_bounds(s: Seq<u8>, i: int) -> Option<(WindowBounds, int)> {
    if !match_at(s, i, l_wb_x()) {
        None
    } else {
        match parse_i32(s, i + l_wb_x().len()) {
            None => None,
            Some((x, i1)) => if !match_at(s, i1, l_wb_y()) {
                None
            } else {
                match parse_i32(s, i1 + l_wb_y().len()) {
                    None => None,
                    Some((y, i2)) => if !match_at(s, i2, l_wb_w()) {
                        None
                    } else {
                        match parse_i32(s, i2 + l_wb_w().len()) {
                            None => None,
                            Some((width, i3)) => if !match_at(s, i3, l_wb_h()) {
                                None
                            } else {
                                match parse_i32(s, i3 + l_wb_h().len()) {
                                    None => None,
                                    Some((height, i4)) => if !match_at(s, i4, l_wb_m()) {
                                        None
                                    } else {
                                        match parse_bool(s, i4 + l_wb_m().len()) {
                                            None => None,
                                            Some((m, i5)) => if !match_at(s, i5, l_obj_close()) {
                                                None
                                            } else {
                                                Some(
                                                    (
                                                        WindowBounds {
                                                            x,
                                                            y,
                                                            width,
                                                            height,
                                                            is_maximized: m,
                                                        },
                                                        i5 + l_obj_close().len(),
                                                    ),
                                                )
                                            },
                                        }
                                    },
                                }
                            },
                        }
                    },
                }
            },
        }
    }
}

/// Parses the panel-layout record at `i`.
pub open spec fn parse_panel_state(s: Seq<u8>, i: int) -> Option<(PanelState, int)> {
    if !match_at(s, i, l_ps_lw()) {
        None
    } else {
        match parse_i32(s, i + l_ps_lw().len()) {
            None => None,
            Some((lw, i1)) => if !match_at(s, i1, l_ps_bh()) {
                None
            } else {
                match parse_i32(s, i1 + l_ps_bh().len()) {
                    None => None,
                    Some((bh, i2)) => if !match_at(s, i2, l_ps_lt()) {
                        None
                    } else {
                        match parse_usize(s, i2 + l_ps_lt().len()) {
                            None => None,
                            Some((lt, i3)) => if !match_at(s, i3, l_ps_mt()) {
                                None
                            } else {
                                match parse_usize(s, i3 + l_ps_mt().len()) {
                                    None => None,
                                    Some((mt, i4)) => if !match_at(s, i4, l_ps_bt()) {
                                        None
                                    } else {
                                        match parse_usize(s, i4 + l_ps_bt().len()) {
                                            None => None,
                                            Some((bt, i5)) => if !match_at(s, i5, l_obj_close()) {
                                                None
                                            } else {
                                                Some(
                                                    (
                                                        PanelState {
                                                            left_panel_width: lw,
                                                            bottom_panel_height: bh,
                                                            selected_left_tab: lt,
                                                            selected_main_tab: mt,
                                                            selected_bottom_tab: bt,
                                                        },
                                                        i5 + l_obj_close().len(),
                                                    ),
                                                )
                                            },
                                        }
                                    },
                                }
                            },
                        }
                    },
                }
            },
        }
    }
}

/// Parses one open tab at `i`.
pub open spec fn parse_tab(s: Seq<u8>, i: int) -> Option<(TabStateV, int)> {
    if !match_at(s, i, l_tab_name()) {
        None
    } else {
        match parse_str(s, i + l_tab_name().len()) {
            None => None,
            Some((name, i1)) => if !match_at(s, i1, l_tab_path()) {
                None
            } else {
                match parse_opt_str(s, i1 + l_tab_path().len()) {
                    None => None,
                    Some((path, i2)) => if !match_at(s, i2, l_tab_dirty()) {
                        None
                    } else {
                        match parse_bool(s, i2 + l_tab_dirty().len()) {
                            None => None,
                            Some((dirty, i3)) => if !match_at(s, i3, l_tab_close()) {
                                None
                            } else {
                                Some(
                                    (
                                        TabStateV { name, file_path: path, is_dirty: dirty },
                                        i3 + l_tab_close().len(),
                                    ),
                                )
                            },
                        }
                    },
                }
            },
        }
    }
}

/// Parses the tab-list elements that follow a first tab: either the closing
/// bracket, or a comma followed by a tab and the rest of the list.
pub open spec fn parse_tabs_rest(s: Seq<u8>, i: int) -> Option<(Seq<TabStateV>, int)>
    decreases s.len() - i,
{
    if match_at(s, i, l_arr_close()) {
        Some((Seq::empty(), i + l_arr_close().len()))
    } else if match_at(s, i, l_arr_comma()) {
        match parse_tab(s, i + l_arr_comma().len()) {
            None => None,
            Some((t, j)) => if i < j <= s.len() {
                match parse_tabs_rest(s, j) {
                    None => None,
                    Some((ts, k)) => Some((seq![t] + ts, k)),
                }
            } else {
                None
            },
        }
    } else {
        None
    }
}

/// Parses the tab list at `i`.
pub open spec fn parse_tabs(s: Seq<u8>, i: int) -> Option<(Seq<TabStateV>, int)> {
    if match_at(s, i, l_arr_empty()) {
        Some((Seq::empty(), i + l_arr_empty().len()))
    } else if !match_at(s, i, l_arr_open()) {
        None
    } else {
        match parse_tab(s, i + l_arr_open().len()) {
            None => None,
            Some((t, j)) => if i < j <= s.len() {
                match parse_tabs_rest(s, j) {
                    None => None,
                    Some((ts, k)) => Some((seq![t] + ts, k)),
                }
            } else {
                None
            },
        }
    }
}

/// Parses the complete persisted state at `i`.
pub open spec fn parse_app(s: Seq<u8>, i: int) -> Option<(AppStateV, int)> {
    if !match_at(s, i, l_app_wb()) {
        None
    } else {
        match parse_window_bounds(s, i + l_app_wb().len()) {
            None => None,
            Some((wb, i1)) => if !match_at(s, i1, l_app_ps()) {
                None
            } else {
                match parse_panel_state(s, i1 + l_app_ps().len()) {
                    None => None,
                    Some((ps, i2)) => if !match_at(s, i2, l_app_tabs()) {
                        None
                    } else {
                        match parse_tabs(s, i2 + l_app_tabs().len()) {
                            None => None,
                            Some((tabs, i3)) => if !match_at(s, i3, l_app_ver()) {
                                None
                            } else {
                                match parse_str(s, i3 + l_app_ver().len()) {
                                    None => None,
                                    Some((ver, i4)) => if !match_at(s, i4, l_app_close()) {
                                        None
                                    } else {
                                        Some(
                                            (
                                                AppStateV {
                                                    window_bounds: wb,
                                                    panel_state: ps,
                                                    open_tabs: tabs,
                                                    version: ver,
                                                },
                                                i4 + l_app_close().len(),
                                            ),
                                        )
                                    },
                                }
                            },
                        }
                    },
                }
            },
        }
    }
}

/// Parses a complete input as a persisted state: the parse must consume
/// every byte.
pub open spec fn spec_parse_app_state(s: Seq<u8>) -> Option<AppStateV> {
    match parse_app(s, 0) {
        None => None,
        Some((v, j)) => if j == s.len() {
            Some(v)
        } else {
            None
        },
    }
}

// ----------------------------------------------------------------------
// Round-trip lemmas: parsing a canonical encoding restores the encoded
// record and consumes exactly the encoding.
// ----------------------------------------------------------------------

/// Round trip of the window-geometry record.
pub proof fn lemma_parse_window_bounds_enc(s: Seq<u8>, i: int, w: WindowBounds)
    requires
        match_at(s, i, enc_window_bounds(w)),
    ensures
        parse_window_bounds(s, i) == Some((w, i + enc_window_bounds(w).len())),
{
    let n1 = enc_int(w.x as int);
    let n2 = enc_int(w.y as int);
    let n3 = enc_int(w.width as int);
    let n4 = enc_int(w.height as int);
    let n5 = enc_bool(w.is_maximized);
    let t1 = n1 + (l_wb_y() + (n2 + (l_wb_w() + (n3 + (l_wb_h() + (n4 + (l_wb_m() + (n5
        + l_obj_close()))))))));
    lemma_match_at_concat(s, i, l_wb_x(), t1);
    let p1 = i + l_wb_x().len();
    let t2 = l_wb_y() + (n2 + (l_wb_w() + (n3 + (l_wb_h() + (n4 + (l_wb_m() + (n5 + l_obj_close())))))));
    lemma_match_at_concat(s, p1, n1, t2);
    let p2 = p1 + n1.len();
    lemma_match_at_index(s, p2, t2, 0);
    assert(!is_digit(s[p2]));
    lemma_parse_i32_enc(s, p1, w.x);
    let t3 = n2 + (l_wb_w() + (n3 + (l_wb_h() + (n4 + (l_wb_m() + (n5 + l_obj_close()))))));
    lemma_match_at_concat(s, p2, l_wb_y(), t3);
    let p3 = p2 + l_wb_y().len();
    let t4 = l_wb_w() + (n3 + (l_wb_h() + (n4 + (l_wb_m() + (n5 + l_obj_close())))));
    lemma_match_at_concat(s, p3, n2, t4);
    let p4 = p3 + n2.len();
    lemma_match_at_index(s, p4, t4, 0);
    assert(!is_digit(s[p4]));
    lemma_parse_i32_enc(s, p3, w.y);
    let t5 = n3 + (l_wb_h() + (n4 + (l_wb_m() + (n5 + l_obj_close()))));
    lemma_match_at_concat(s, p4, l_wb_w(), t5);
    let p5 = p4 + l_wb_w().len();
    let t6 = l_wb_h() + (n4 + (l_wb_m() + (n5 + l_obj_close())));
    lemma_match_at_concat(s, p5, n3, t6);
    let p6 = p5 + n3.len();
    lemma_match_at_index(s, p6, t6, 0);
    assert(!is_digit(s[p6]));
    lemma_parse_i32_enc(s, p5, w.width);
    let t7 = n4 + (l_wb_m() + (n5 + l_obj_close()));
    lemma_match_at_concat(s, p6, l_wb_h(), t7);
    let p7 = p6 + l_wb_h().len();
    let t8 = l_wb_m() + (n5 + l_obj_close());
    lemma_match_at_concat(s, p7, n4, t8);
    let p8 = p7 + n4.len();
    lemma_match_at_index(s, p8, t8, 0);
    assert(!is_digit(s[p8]));
    lemma_parse_i32_enc(s, p7, w.height);
    let t9 = n5 + l_obj_close();
    lemma_match_at_concat(s, p8, l_wb_m(), t9);
    let p9 = p8 + l_wb_m().len();
    lemma_match_at_concat(s, p9, n5, l_obj_close());
    lemma_parse_bool_enc(s, p9, w.is_maximized);
}

/// Round trip of the panel-layout record.
pub proof fn lemma_parse_panel_state_enc(s: Seq<u8>, i: int, p: PanelState)
    requires
        match_at(s, i, enc_panel_state(p)),
    ensures
        parse_panel_state(s, i) == Some((p, i + enc_panel_state(p).len())),
{
    let n1 = enc_int(p.left_panel_width as int);
    let n2 = enc_int(p.bottom_panel_height as int);
    let n3 = enc_nat(p.selected_left_tab as nat);
    let n4 = enc_nat(p.selected_main_tab as nat);
    let n5 = enc_nat(p.selected_bottom_tab as nat);
    let t1 = n1 + (l_ps_bh() + (n2 + (l_ps_lt() + (n3 + (l_ps_mt() + (n4 + (l_ps_bt() + (n5
        + l_obj_close()))))))));
    lemma_match_at_concat(s, i, l_ps_lw(), t1);
    let p1 = i + l_ps_lw().len();
    let t2 = l_ps_bh() + (n2 + (l_ps_lt() + (n3 + (l_ps_mt() + (n4 + (l_ps_bt() + (n5
        + l_obj_close())))))));
    lemma_match_at_concat(s, p1, n1, t2);
    let p2 = p1 + n1.len();
    lemma_match_at_index(s, p2, t2, 0);
    assert(!is_digit(s[p2]));
    lemma_parse_i32_enc(s, p1, p.left_panel_width);
    let t3 = n2 + (l_ps_lt() + (n3 + (l_ps_mt() + (n4 + (l_ps_bt() + (n5 + l_obj_close()))))));
    lemma_match_at_concat(s, p2, l_ps_bh(), t3);
    let p3 = p2 + l_ps_bh().len();
    let t4 = l_ps_lt() + (n3 + (l_ps_mt() + (n4 + (l_ps_bt() + (n5 + l_obj_close())))));
    lemma_match_at_concat(s, p3, n2, t4);
    let p4 = p3 + n2.len();
    lemma_match_at_index(s, p4, t4, 0);
    assert(!is_digit(s[p4]));
    lemma_parse_i32_enc(s, p3, p.bottom_panel_height);
    let t5 = n3 + (l_ps_mt() + (n4 + (l_ps_bt() + (n5 + l_obj_close()))));
    lemma_match_at_concat(s, p4, l_ps_lt(), t5);
    let p5 = p4 + l_ps_lt().len();
    let t6 = l_ps_mt() + (n4 + (l_ps_bt() + (n5 + l_obj_close())));
    lemma_match_at_concat(s, p5, n3, t6);
    let p6 = p5 + n3.len();
    lemma_match_at_index(s, p6, t6, 0);
    assert(!is_digit(s[p6]));
    lemma_parse_usize_enc(s, p5, p.selected_left_tab);
    let t7 = n4 + (l_ps_bt() + (n5 + l_obj_close()));
    lemma_match_at_concat(s, p6, l_ps_mt(), t7);
    let p7 = p6 + l_ps_mt().len();
    let t8 = l_ps_bt() + (n5 + l_obj_close());
    lemma_match_at_concat(s, p7, n4, t8);
    let p8 = p7 + n4.len();
    lemma_match_at_index(s, p8, t8, 0);
    assert(!is_digit(s[p8]));
    lemma_parse_usize_enc(s, p7, p.selected_main_tab);
    let t9 = n5 + l_obj_close();
    lemma_match_at_concat(s, p8, l_ps_bt(), t9);
    let p9 = p8 + l_ps_bt().len();
    lemma_match_at_concat(s, p9, n5, l_obj_close());
    let p10 = p9 + n5.len();
    lemma_match_at_index(s, p10, l_obj_close(), 0);
    assert(!is_digit(s[p10]));
    lemma_parse_usize_enc(s, p9, p.selected_bottom_tab);
}

/// Round trip of one open tab.
pub proof fn lemma_parse_tab_enc(s: Seq<u8>, i: int, t: TabStateV)
    requires
        match_at(s, i, enc_tab(t)),
    ensures
        parse_tab(s, i) == Some((t, i + enc_tab(t).len())),
{
    let n1 = enc_str(t.name);
    let n2 = enc_opt_str(t.file_path);
    let n3 = enc_bool(t.is_dirty);
    let t1 = n1 + (l_tab_path() + (n2 + (l_tab_dirty() + (n3 + l_tab_close()))));
    lemma_match_at_concat(s, i, l_tab_name(), t1);
    let p1 = i + l_tab_name().len();
    let t2 = l_tab_path() + (n2 + (l_tab_dirty() + (n3 + l_tab_close())));
    lemma_match_at_concat(s, p1, n1, t2);
    let p2 = p1 + n1.len();
    lemma_parse_str_enc(s, p1, t.name);
    let t3 = n2 + (l_tab_dirty() + (n3 + l_tab_close()));
    lemma_match_at_concat(s, p2, l_tab_path(), t3);
    let p3 = p2 + l_tab_path().len();
    let t4 = l_tab_dirty() + (n3 + l_tab_close());
    lemma_match_at_concat(s, p3, n2, t4);
    let p4 = p3 + n2.len();
    lemma_parse_opt_str_enc(s, p3, t.file_path);
    let t5 = n3 + l_tab_close();
    lemma_match_at_concat(s, p4, l_tab_dirty(), t5);
    let p5 = p4 + l_tab_dirty().len();
    lemma_match_at_concat(s, p5, n3, l_tab_close());
    lemma_parse_bool_enc(s, p5, t.is_dirty);
}

/// Round trip of the tail of a tab list followed by the closing bracket.
pub proof fn lemma_parse_tabs_rest_enc(s: Seq<u8>, i: int, ts: Seq<TabStateV>)
    requires
        match_at(s, i, enc_tabs_rest(ts) + l_arr_close()),
    ensures
        parse_tabs_rest(s, i) == Some((ts, i + enc_tabs_rest(ts).len() + l_arr_close().len())),
    decreases ts.len(),
{
    if ts.len() == 0 {
        assert(enc_tabs_rest(ts) + l_arr_close() =~= l_arr_close());
    } else {
        let c = enc_tab(ts[0]);
        let rest = enc_tabs_rest(ts.drop_first());
        assert(enc_tabs_rest(ts) + l_arr_close() =~= l_arr_comma() + (c + (rest + l_arr_close())));
        lemma_match_at_concat(s, i, l_arr_comma(), c + (rest + l_arr_close()));
        lemma_match_at_index(s, i, l_arr_comma(), 0);
        if match_at(s, i, l_arr_close()) {
            lemma_match_at_index(s, i, l_arr_close(), 0);
            assert(false);
        }
        let p1 = i + l_arr_comma().len();
        lemma_match_at_concat(s, p1, c, rest + l_arr_close());
        lemma_parse_tab_enc(s, p1, ts[0]);
        let p2 = p1 + c.len();
        lemma_parse_tabs_rest_enc(s, p2, ts.drop_first());
        assert(seq![ts[0]] + ts.drop_first() =~= ts);
    }
}

/// Round trip of the tab list.
pub proof fn lemma_parse_tabs_enc(s: Seq<u8>, i: int, ts: Seq<TabStateV>)
    requires
        match_at(s, i, enc_tabs(ts)),
    ensures
        parse_tabs(s, i) == Some((ts, i + enc_tabs(ts).len())),
{
    if ts.len() == 0 {
    } else {
        let c = enc_tab(ts[0]);
        let rest = enc_tabs_rest(ts.drop_first());
        lemma_match_at_concat(s, i, l_arr_open(), c + (rest + l_arr_close()));
        lemma_match_at_index(s, i, l_arr_open(), 1);
        if match_at(s, i, l_arr_empty()) {
            lemma_match_at_index(s, i, l_arr_empty(), 1);
            assert(false);
        }
        let p1 = i + l_arr_open().len();
        lemma_match_at_concat(s, p1, c, rest + l_arr_close());
        lemma_parse_tab_enc(s, p1, ts[0]);
        let p2 = p1 + c.len();
        lemma_parse_tabs_rest_enc(s, p2, ts.drop_first());
        assert(seq![ts[0]] + ts.drop_first() =~= ts);
    }
}

/// Round trip of the complete persisted state.
#[verifier::rlimit(50)]
pub proof fn lemma_parse_app_enc(s: Seq<u8>, i: int, v: AppStateV)
    requires
        match_at(s, i, spec_encode_app_state(v)),
    ensures
        parse_app(s, i) == Some((v, i + spec_encode_app_state(v).len())),
{
    let c1 = enc_window_bounds(v.window_bounds);
    let c2 = enc_panel_state(v.panel_state);
    let c3 = enc_tabs(v.open_tabs);
    let c4 = enc_str(v.version);
    let t1 = c1 + (l_app_ps() + (c2 + (l_app_tabs() + (c3 + (l_app_ver() + (c4 + l_app_close()))))));
    lemma_match_at_concat(s, i, l_app_wb(), t1);
    let p1 = i + l_app_wb().len();
    let t2 = l_app_ps() + (c2 + (l_app_tabs() + (c3 + (l_app_ver() + (c4 + l_app_close())))));
    lemma_match_at_concat(s, p1, c1, t2);
    lemma_parse_window_bounds_enc(s, p1, v.window_bounds);
    let p2 = p1 + c1.len();
    let t3 = c2 + (l_app_tabs() + (c3 + (l_app_ver() + (c4 + l_app_close()))));
    lemma_match_at_concat(s, p2, l_app_ps(), t3);
    let p3 = p2 + l_app_ps().len();
    let t4 = l_app_tabs() + (c3 + (l_app_ver() + (c4 + l_app_close())));
    lemma_match_at_concat(s, p3, c2, t4);
    lemma_parse_panel_state_enc(s, p3, v.panel_state);
    let p4 = p3 + c2.len();
    let t5 = c3 + (l_app_ver() + (c4 + l_app_close()));
    lemma_match_at_concat(s, p4, l_app_tabs(), t5);
    let p5 = p4 + l_app_tabs().len();
    let t6 = l_app_ver() + (c4 + l_app_close());
    lemma_match_at_concat(s, p5, c3, t6);
    lemma_parse_tabs_enc(s, p5, v.open_tabs);
    let p6 = p5 + c3.len();
    let t7 = c4 + l_app_close();
    lemma_match_at_concat(s, p6, l_app_ver(), t7);
    let p7 = p6 + l_app_ver().len();
    lemma_match_at_concat(s, p7, c4, l_app_close());
    lemma_parse_str_enc(s, p7, v.version);
}

/// Serializing a state and parsing the result restores the state, whatever
/// its fields hold.
pub proof fn lemma_encode_parse_round_trip(v: AppStateV)
    ensures
        spec_parse_app_state(spec_encode_app_state(v)) == Some(v),
{
    let s = spec_encode_app_state(v);
    assert(match_at(s, 0, s));
    lemma_parse_app_enc(s, 0, v);
}

/// Saving a state and loading the saved bytes yields the state that was
/// saved.
pub proof fn lemma_save_load_round_trip(v: AppStateV)
    ensures
        spec_load(Some(spec_encode_app_state(v))) == v,
{
    lemma_encode_parse_round_trip(v);
}

/// What loading yields for given file contents: the parsed state when the
/// file was read and parses, and the default state otherwise.
pub open spec fn spec_load(contents: Option<Seq<u8>>) -> AppStateV {
    match contents {
        None => default_app_state(),
        Some(s) => match spec_parse_app_state(s) {
            None => default_app_state(),
            Some(v) => v,
        },
    }
}

// ----------------------------------------------------------------------
// Executable encoder.
// ----------------------------------------------------------------------

/// Appending one more tab to a list's tail appends a comma and that tab's
/// encoding.
proof fn lemma_enc_tabs_rest_snoc(ts: Seq<TabStateV>, t: TabStateV)
    ensures
        enc_tabs_rest(ts.push(t)) == enc_tabs_rest(ts) + (l_arr_comma() + enc_tab(t)),
    decreases ts.len(),
{
    if ts.len() == 0 {
        assert(ts.push(t).drop_first() =~= Seq::<TabStateV>::empty());
        assert(ts.push(t)[0] == t);
        assert(enc_tabs_rest(Seq::<TabStateV>::empty()) == Seq::<u8>::empty());
        assert(enc_tabs_rest(ts.push(t)) == l_arr_comma() + (enc_tab(t) + Seq::<u8>::empty()));
        assert(enc_tabs_rest(ts.push(t)) =~= enc_tabs_rest(ts) + (l_arr_comma() + enc_tab(t)));
    } else {
        assert(ts.push(t).drop_first() =~= ts.drop_first().push(t));
        assert(ts.push(t)[0] == ts[0]);
        lemma_enc_tabs_rest_snoc(ts.drop_first(), t);
        assert(enc_tabs_rest(ts.push(t)) =~= enc_tabs_rest(ts) + (l_arr_comma() + enc_tab(t)));
    }
}

/// Appends the encoding of the window-geometry record to `out`.
#[verifier::rlimit(50)]
pub fn e_window_bounds(out: &mut Vec<u8>, w: &WindowBounds)
    ensures
        final(out)@ == old(out)@ + enc_window_bounds(*w),
{
    let l = l_wb_x_v();
    emit_lit(out, l.as_slice());
    emit_i32(out, w.x);
    let l = l_wb_y_v();
    emit_lit(out, l.as_slice());
    emit_i32(out, w.y);
    let l = l_wb_w_v();
    emit_lit(out, l.as_slice());
    emit_i32(out, w.width);
    let l = l_wb_h_v();
    emit_lit(out, l.as_slice());
    emit_i32(out, w.height);
    let l = l_wb_m_v();
    emit_lit(out, l.as_slice());
    emit_bool(out, w.is_maximized);
    let l = l_obj_close_v();
    emit_lit(out, l.as_slice());
    proof {
        assert(out@ =~= old(out)@ + enc_window_bounds(*w));
    }
}

/// Appends the encoding of the panel-layout record to `out`.
#[verifier::rlimit(50)]
pub fn e_panel_state(out: &mut Vec<u8>, p: &PanelState)
    ensures
        final(out)@ == old(out)@ + enc_panel_state(*p),
{
    let l = l_ps_lw_v();
    emit_lit(out, l.as_slice());
    emit_i32(out, p.left_panel_width);
    let l = l_ps_bh_v();
    emit_lit(out, l.as_slice());
    emit_i32(out, p.bottom_panel_height);
    let l = l_ps_lt_v();
    emit_lit(out, l.as_slice());
    emit_usize(out, p.selected_left_tab);
    let l = l_ps_mt_v();
    emit_lit(out, l.as_slice());
    emit_usize(out, p.selected_main_tab);
    let l = l_ps_bt_v();
    emit_lit(out, l.as_slice());
    emit_usize(out, p.selected_bottom_tab);
    let l = l_obj_close_v();
    emit_lit(out, l.as_slice());
    proof {
        assert(out@ =~= old(out)@ + enc_panel_state(*p));
    }
}

/// Appends the encoding of one open tab to `out`.
pub fn e_tab(out: &mut Vec<u8>, t: &TabState)
    ensures
        final(out)@ == old(out)@ + enc_tab(t@),
{
    let l = l_tab_name_v();
    emit_lit(out, l.as_slice());
    emit_str(out, t.name.as_slice());
    let l = l_tab_path_v();
    emit_lit(out, l.as_slice());
    match &t.file_path {
        Some(p) => {
            emit_str(out, p.as_slice());
        },
        None => {
            emit_null(out);
        },
    }
    let l = l_tab_dirty_v();
    emit_lit(out, l.as_slice());
    emit_bool(out, t.is_dirty);
    let l = l_tab_close_v();
    emit_lit(out, l.as_slice());
    proof {
        assert(out@ =~= old(out)@ + enc_tab(t@));
    }
}

/// Appends the encoding of the tab list to `out`.
pub fn e_tabs(out: &mut Vec<u8>, tabs: &Vec<TabState>)
    ensures
        final(out)@ == old(out)@ + enc_tabs(tabs_view(tabs@)),
{
    if tabs.len() == 0 {
        let l = l_arr_empty_v();
        emit_lit(out, l.as_slice());
        proof {
            assert(tabs_view(tabs@).len() == 0);
            assert(out@ =~= old(out)@ + enc_tabs(tabs_view(tabs@)));
        }
        return ;
    }
    let l = l_arr_open_v();
    emit_lit(out, l.as_slice());
    e_tab(out, &tabs[0]);
    let ghost all = tabs_view(tabs@);
    let mut k: usize = 1;
    while k < tabs.len()
        invariant
            1 <= k <= tabs@.len(),
            all == tabs_view(tabs@),
            all.len() == tabs@.len(),
            out@ == old(out)@ + l_arr_open() + enc_tab(all[0]) + enc_tabs_rest(
                all.subrange(1, k as int),
            ),
        decreases tabs@.len() - k,
    {
        let l = l_arr_comma_v();
        emit_lit(out, l.as_slice());
        e_tab(out, &tabs[k]);
        proof {
            assert(all.subrange(1, k as int + 1) =~= all.subrange(1, k as int).push(all[k as int]));
            lemma_enc_tabs_rest_snoc(all.subrange(1, k as int), all[k as int]);
            assert(tabs@[k as int]@ == all[k as int]);
            assert(out@ =~= old(out)@ + l_arr_open() + enc_tab(all[0]) + enc_tabs_rest(
                all.subrange(1, k as int + 1),
            ));
        }
        k += 1;
    }
    let l = l_arr_close_v();
    emit_lit(out, l.as_slice());
    proof {
        assert(all.subrange(1, all.len() as int) =~= all.drop_first());
        assert(out@ =~= old(out)@ + enc_tabs(all));
    }
}

// ----------------------------------------------------------------------
// Executable parser.
// ----------------------------------------------------------------------

/// Parses the window-geometry record, mirroring [`parse_window_bounds`].
pub fn p_window_bounds(s: &[u8], i: usize) -> (r: Option<(WindowBounds, usize)>)
    ensures
        match r {
            Some((w, j)) => parse_window_bounds(s@, i as int) == Some((w, j as int)),
            None => parse_window_bounds(s@, i as int) is None,
        },
{
    let l = l_wb_x_v();
    let p1 = match expect_lit(s, i, l.as_slice()) {
        Some(j) => j,
        None => {
            return None;
        },
    };
    let (x, p2) = match p_i32(s, p1) {
        Some(v) => v,
        None => {
            return None;
        },
    };
    let l = l_wb_y_v();
    let p3 = match expect_lit(s, p2, l.as_slice()) {
        Some(j) => j,
        None => {
            return None;
        },
    };
    let (y, p4) = match p_i32(s, p3) {
        Some(v) => v,
        None => {
            return None;
        },
    };
    let l = l_wb_w_v();
    let p5 = match expect_lit(s, p4, l.as_slice()) {
        Some(j) => j,
        None => {
            return None;
        },
    };
    let (width, p6) = match p_i32(s, p5) {
        Some(v) => v,
        None => {
            return None;
        },
    };
    let l = l_wb_h_v();
    let p7 = match expect_lit(s, p6, l.as_slice()) {
        Some(j) => j,
        None => {
            return None;
        },
    };
    let (height, p8) = match p_i32(s, p7) {
        Some(v) => v,
        None => {
            return None;
        },
    };
    let l = l_wb_m_v();
    let p9 = match expect_lit(s, p8, l.as_slice()) {
        Some(j) => j,
        None => {
            return None;
        },
    };
    let (m, p10) = match p_bool(s, p9) {
        Some(v) => v,
        None => {
            return None;
        },
    };
    let l = l_obj_close_v();
    let p11 = match expect_lit(s, p10, l.as_slice()) {
        Some(j) => j,
        None => {
            return None;
        },
    };
    Some((WindowBounds { x, y, width, height, is_maximized: m }, p11))
}

/// Parses the panel-layout record, mirroring [`parse_panel_state`].
pub fn p_panel_state(s: &[u8], i: usize) -> (r: Option<(PanelState, usize)>)
    ensures
        match r {
            Some((p, j)) => parse_panel_state(s@, i as int) == Some((p, j as int)),
            None => parse_panel_state(s@, i as int) is None,
        },
{
    let l = l_ps_lw_v();
    let p1 = match expect_lit(s, i, l.as_slice()) {
        Some(j) => j,
        None => {
            return None;
        },
    };
    let (lw, p2) = match p_i32(s, p1) {
        Some(v) => v,
        None => {
            return None;
        },
    };
    let l = l_ps_bh_v();
    let p3 = match expect_lit(s, p2, l.as_slice()) {
        Some(j) => j,
        None => {
            return None;
        },
    };
    let (bh, p4) = match p_i32(s, p3) {
        Some(v) => v,
        None => {
            return None;
        },
    };
    let l = l_ps_lt_v();
    let p5 = match expect_lit(s, p4, l.as_slice()) {
        Some(j) => j,
        None => {
            return None;
        },
    };
    let (lt, p6) = match p_usize(s, p5) {
        Some(v) => v,
        None => {
            return None;
        },
    };
    let l = l_ps_mt_v();
    let p7 = match expect_lit(s, p6, l.as_slice()) {
        Some(j) => j,
        None => {
            return None;
        },
    };
    let (mt, p8) = match p_usize(s, p7) {
        Some(v) => v,
        None => {
            return None;
        },
    };
    let l = l_ps_bt_v();
    let p9 = match expect_lit(s, p8, l.as_slice()) {
        Some(j) => j,
        None => {
            return None;
        },
    };
    let (bt, p10) = match p_usize(s, p9) {
        Some(v) => v,
        None => {
            return None;
        },
    };
    let l = l_obj_close_v();
    let p11 = match expect_lit(s, p10, l.as_slice()) {
        Some(j) => j,
        None => {
            return None;
        },
    };
    Some(
        (
            PanelState {
                left_panel_width: lw,
                bottom_panel_height: bh,
                selected_left_tab: lt,
                selected_main_tab: mt,
                selected_bottom_tab: bt,
            },
            p11,
        ),
    )
}

/// Parses one open tab, mirroring [`parse_tab`].
pub fn p_tab(s: &[u8], i: usize) -> (r: Option<(TabState, usize)>)
    ensures
        match r {
            Some((t, j)) => parse_tab(s@, i as int) == Some((t@, j as int)),
            None => parse_tab(s@, i as int) is None,
        },
{
    let l = l_tab_name_v();
    let p1 = match expect_lit(s, i, l.as_slice()) {
        Some(j) => j,
        None => {
            return None;
        },
    };
    let (name, p2) = match p_str(s, p1) {
        Some(v) => v,
        None => {
            return None;
        },
    };
    let l = l_tab_path_v();
    let p3 = match expect_lit(s, p2, l.as_slice()) {
        Some(j) => j,
        None => {
            return None;
        },
    };
    let (path, p4) = match p_opt_str(s, p3) {
        Some(v) => v,
        None => {
            return None;
        },
    };
    let l = l_tab_dirty_v();
    let p5 = match expect_lit(s, p4, l.as_slice()) {
        Some(j) => j,
        None => {
            return None;
        },
    };
    let (dirty, p6) = match p_bool(s, p5) {
        Some(v) => v,
        None => {
            return None;
        },
    };
    let l = l_tab_close_v();
    let p7 = match expect_lit(s, p6, l.as_slice()) {
        Some(j) => j,
        None => {
            return None;
        },
    };
    Some((TabState { name, file_path: path, is_dirty: dirty }, p7))
}

/// Parses the tab list, mirroring [`parse_tabs`].
pub fn p_tabs(s: &[u8], i: usize) -> (r: Option<(Vec<TabState>, usize)>)
    ensures
        match r {
            Some((ts, j)) => parse_tabs(s@, i as int) == Some((tabs_view(ts@), j as int)),
            None => parse_tabs(s@, i as int) is None,
        },
{
    let em = l_arr_empty_v();
    match expect_lit(s, i, em.as_slice()) {
        Some(j) => {
            let e: Vec<TabState> = Vec::new();
            proof {
                assert(tabs_view(e@) =~= Seq::<TabStateV>::empty());
            }
            return Some((e, j));
        },
        None => {},
    }
    let l = l_arr_open_v();
    let i1 = match expect_lit(s, i, l.as_slice()) {
        Some(j) => j,
        None => {
            return None;
        },
    };
    let (t0, j0) = match p_tab(s, i1) {
        Some(v) => v,
        None => {
            return None;
        },
    };
    if !(i < j0 && j0 <= s.len()) {
        return None;
    }
    let mut acc: Vec<TabState> = Vec::new();
    acc.push(t0);
    proof {
        assert(tabs_view(acc@) =~= seq![acc@[0]@]);
    }
    let mut k: usize = j0;
    loop
        invariant
            k <= s@.len() <= usize::MAX,
            (match parse_tabs_rest(s@, k as int) {
                Some((ts2, m)) => parse_tabs(s@, i as int) == Some((tabs_view(acc@) + ts2, m)),
                None => parse_tabs(s@, i as int) is None,
            }),
        decreases s@.len() - k,
    {
        let rb2 = l_arr_close_v();
        match expect_lit(s, k, rb2.as_slice()) {
            Some(m) => {
                proof {
                    assert(tabs_view(acc@) + Seq::<TabStateV>::empty() =~= tabs_view(acc@));
                }
                return Some((acc, m));
            },
            None => {},
        }
        let cm = l_arr_comma_v();
        let km = match expect_lit(s, k, cm.as_slice()) {
            Some(m) => m,
            None => {
                return None;
            },
        };
        let (t, j) = match p_tab(s, km) {
            Some(v) => v,
            None => {
                return None;
            },
        };
        if !(k < j && j <= s.len()) {
            return None;
        }
        let ghost acc0 = acc@;
        acc.push(t);
        proof {
            assert(tabs_view(acc0.push(t)) =~= tabs_view(acc0).push(t@));
            match parse_tabs_rest(s@, j as int) {
                Some((ts2, m)) => {
                    assert(tabs_view(acc0) + (seq![t@] + ts2) =~= tabs_view(acc0).push(t@) + ts2);
                },
                None => {},
            }
        }
        k = j;
    }
}

/// Parses the complete persisted state, mirroring [`parse_app`].
pub fn p_app(s: &[u8], i: usize) -> (r: Option<(AppState, usize)>)
    ensures
        match r {
            Some((v, j)) => parse_app(s@, i as int) == Some((v@, j as int)),
            None => parse_app(s@, i as int) is None,
        },
{
    let l = l_app_wb_v();
    let p1 = match expect_lit(s, i, l.as_slice()) {
        Some(j) => j,
        None => {
            return None;
        },
    };
    let (wb, p2) = match p_window_bounds(s, p1) {
        Some(v) => v,
        None => {
            return None;
        },
    };
    let l = l_app_ps_v();
    let p3 = match expect_lit(s, p2, l.as_slice()) {
        Some(j) => j,
        None => {
            return None;
        },
    };
    let (ps, p4) = match p_panel_state(s, p3) {
        Some(v) => v,
        None => {
            return None;
        },
    };
    let l = l_app_tabs_v();
    let p5 = match expect_lit(s, p4, l.as_slice()) {
        Some(j) => j,
        None => {
            return None;
        },
    };
    let (tabs, p6) = match p_tabs(s, p5) {
        Some(v) => v,
        None => {
            return None;
        },
    };
    let l = l_app_ver_v();
    let p7 = match expect_lit(s, p6, l.as_slice()) {
        Some(j) => j,
        None => {
            return None;
        },
    };
    let (ver, p8) = match p_str(s, p7) {
        Some(v) => v,
        None => {
            return None;
        },
    };
    let l = l_app_close_v();
    let p9 = match expect_lit(s, p8, l.as_slice()) {
        Some(j) => j,
        None => {
            return None;
        },
    };
    Some(
        (
            AppState { window_bounds: wb, panel_state: ps, open_tabs: tabs, version: ver },
            p9,
        ),
    )
}

impl AppState {
    /// Serializes this state to the bytes of its on-disk JSON form.
    #[verifier::rlimit(50)]
    pub fn to_json_bytes(&self) -> (out: Vec<u8>)
        ensures
            out@ == spec_encode_app_state(self@),
    {
        let mut out: Vec<u8> = Vec::new();
        let l = l_app_wb_v();
        emit_lit(&mut out, l.as_slice());
        e_window_bounds(&mut out, &self.window_bounds);
        let l = l_app_ps_v();
        emit_lit(&mut out, l.as_slice());
        e_panel_state(&mut out, &self.panel_state);
        let l = l_app_tabs_v();
        emit_lit(&mut out, l.as_slice());
        e_tabs(&mut out, &self.open_tabs);
        let l = l_app_ver_v();
        emit_lit(&mut out, l.as_slice());
        emit_str(&mut out, self.version.as_slice());
        let l = l_app_close_v();
        emit_lit(&mut out, l.as_slice());
        proof {
            assert(out@ =~= spec_encode_app_state(self@));
        }
        out
    }

    /// Parses a state from the bytes of a file, accepting exactly the
    /// on-disk JSON form.
    pub fn from_json_bytes(s: &[u8]) -> (r: Option<AppState>)
        ensures
            match r {
                Some(st) => spec_parse_app_state(s@) == Some(st@),
                None => spec_parse_app_state(s@) is None,
            },
    {
        match p_app(s, 0) {
            Some((st, j)) => {
                if j == s.len() {
                    Some(st)
                } else {
                    None
                }
            },
            None => None,
        }
    }

    /// Builds the state that a load yields for the given file contents:
    /// the parsed state when the file could be read and parses as the
    /// on-disk form, and the default state in every failure case.
    pub fn load_from_contents(contents: Option<&[u8]>) -> (r: AppState)
        ensures
            match contents {
                Some(s) => r@ == spec_load(Some(s@)),
                None => r@ == spec_load(None),
            },
    {
        match contents {
            Some(s) => {
                match Self::from_json_bytes(s) {
                    Some(st) => st,
                    None => Self::default(),
                }
            },
            None => Self::default(),
        }
    }
}

pub open spec fn l_app_wb() -> Seq<u8> {
    seq!['{' as u8, '\n' as u8, ' ' as u8, ' ' as u8, '"' as u8, 'w' as u8, 'i' as u8, 'n' as u8, 'd' as u8, 'o' as u8, 'w' as u8, '_' as u8, 'b' as u8, 'o' as u8, 'u' as u8, 'n' as u8, 'd' as u8, 's' as u8, '"' as u8, ':' as u8, ' ' as u8]
}

pub fn l_app_wb_v() -> (r: Vec<u8>)
    ensures
        r@ == l_app_wb(),
{
    let mut v: Vec<u8> = Vec::new();
    v.push('{' as u8);
    v.push('\n' as u8);
    v.push(' ' as u8);
    v.push(' ' as u8);
    v.push('"' as u8);
    v.push('w' as u8);
    v.push('i' as u8);
    v.push('n' as u8);
    v.push('d' as u8);
    v.push('o' as u8);
    v.push('w' as u8);
    v.push('_' as u8);
    v.push('b' as u8);
    v.push('o' as u8);
    v.push('u' as u8);
    v.push('n' as u8);
    v.push('d' as u8);
    v.push('s' as u8);
    v.push('"' as u8);
    v.push(':' as u8);
    v.push(' ' as u8);
    proof {
        assert(v@ =~= l_app_wb());
    }
    v
}

pub open spec fn l_app_ps() -> Seq<u8> {
    seq![',' as u8, '\n' as u8, ' ' as u8, ' ' as u8, '"' as u8, 'p' as u8, 'a' as u8, 'n' as u8, 'e' as u8, 'l' as u8, '_' as u8, 's' as u8, 't' as u8, 'a' as u8, 't' as u8, 'e' as u8, '"' as u8, ':' as u8, ' ' as u8]
}

pub fn l_app_ps_v() -> (r: Vec<u8>)
    ensures
        r@ == l_app_ps(),
{
    let mut v: Vec<u8> = Vec::new();
    v.push(',' as u8);
    v.push('\n' as u8);
    v.push(' ' as u8);
    v.push(' ' as u8);
    v.push('"' as u8);
    v.push('p' as u8);
    v.push('a' as u8);
    v.push('n' as u8);
    v.push('e' as u8);
    v.push('l' as u8);
    v.push('_' as u8);
    v.push('s' as u8);
    v.push('t' as u8);
    v.push('a' as u8);
    v.push('t' as u8);
    v.push('e' as u8);
    v.push('"' as u8);
    v.push(':' as u8);
    v.push(' ' as u8);
    proof {
        assert(v@ =~= l_app_ps());
    }
    v
}

pub open spec fn l_app_tabs() -> Seq<u8> {
    seq![',' as u8, '\n' as u8, ' ' as u8, ' ' as u8, '"' as u8, 'o' as u8, 'p' as u8, 'e' as u8, 'n' as u8, '_' as u8, 't' as u8, 'a' as u8, 'b' as u8, 's' as u8, '"' as u8, ':' as u8, ' ' as u8]
}

pub fn l_app_tabs_v() -> (r: Vec<u8>)
    ensures
        r@ == l_app_tabs(),
{
    let mut v: Vec<u8> = Vec::new();
    v.push(',' as u8);
    v.push('\n' as u8);
    v.push(' ' as u8);
    v.push(' ' as u8);
    v.push('"' as u8);
    v.push('o' as u8);
    v.push('p' as u8);
    v.push('e' as u8);
    v.push('n' as u8);
    v.push('_' as u8);
    v.push('t' as u8);
    v.push('a' as u8);
    v.push('b' as u8);
    v.push('s' as u8);
    v.push('"' as u8);
    v.push(':' as u8);
    v.push(' ' as u8);
    proof {
        assert(v@ =~= l_app_tabs());
    }
    v
}

pub open spec fn l_app_ver() -> Seq<u8> {
    seq![',' as u8, '\n' as u8, ' ' as u8, ' ' as u8, '"' as u8, 'v' as u8, 'e' as u8, 'r' as u8, 's' as u8, 'i' as u8, 'o' as u8, 'n' as u8, '"' as u8, ':' as u8, ' ' as u8]
}

pub fn l_app_ver_v() -> (r: Vec<u8>)
    ensures
        r@ == l_app_ver(),
{
    let mut v: Vec<u8> = Vec::new();
    v.push(',' as u8);
    v.push('\n' as u8);
    v.push(' ' as u8);
    v.push(' ' as u8);
    v.push('"' as u8);
    v.push('v' as u8);
    v.push('e' as u8);
    v.push('r' as u8);
    v.push('s' as u8);
    v.push('i' as u8);
    v.push('o' as u8);
    v.push('n' as u8);
    v.push('"' as u8);
    v.push(':' as u8);
    v.push(' ' as u8);
    proof {
        assert(v@ =~= l_app_ver());
    }
    v
}

pub open spec fn l_app_close() -> Seq<u8> {
    seq!['\n' as u8, '}' as u8]
}

pub fn l_app_close_v() -> (r: Vec<u8>)
    ensures
        r@ == l_app_close(),
{
    let mut v: Vec<u8> = Vec::new();
    v.push('\n' as u8);
    v.push('}' as u8);
    proof {
        assert(v@ =~= l_app_close());
    }
    v
}

pub open spec fn l_wb_x() -> Seq<u8> {
    seq!['{' as u8, '\n' as u8, ' ' as u8, ' ' as u8, ' ' as u8, ' ' as u8, '"' as u8, 'x' as u8, '"' as u8, ':' as u8, ' ' as u8]
}

pub fn l_wb_x_v() -> (r: Vec<u8>)
    ensures
        r@ == l_wb_x(),
{
    let mut v: Vec<u8> = Vec::new();
    v.push('{' as u8);
    v.push('\n' as u8);
    v.push(' ' as u8);
    v.push(' ' as u8);
    v.push(' ' as u8);
    v.push(' ' as u8);
    v.push('"' as u8);
    v.push('x' as u8);
    v.push('"' as u8);
    v.push(':' as u8);
    v.push(' ' as u8);
    proof {
        assert(v@ =~= l_wb_x());
    }
    v
}

pub open spec fn l_wb_y() -> Seq<u8> {
    seq![',' as u8, '\n' as u8, ' ' as u8, ' ' as u8, ' ' as u8, ' ' as u8, '"' as u8, 'y' as u8, '"' as u8, ':' as u8, ' ' as u8]
}

pub fn l_wb_y_v() -> (r: Vec<u8>)
    ensures
        r@ == l_wb_y(),
{
    let mut v: Vec<u8> = Vec::new();
    v.push(',' as u8);
    v.push('\n' as u8);
    v.push(' ' as u8);
    v.push(' ' as u8);
    v.push(' ' as u8);
    v.push(' ' as u8);
    v.push('"' as u8);
    v.push('y' as u8);
    v.push('"' as u8);
    v.push(':' as u8);
    v.push(' ' as u8);
    proof {
        assert(v@ =~= l_wb_y());
    }
    v
}

pub open spec fn l_wb_w() -> Seq<u8> {
    seq![',' as u8, '\n' as u8, ' ' as u8, ' ' as u8, ' ' as u8, ' ' as u8, '"' as u8, 'w' as u8, 'i' as u8, 'd' as u8, 't' as u8, 'h' as u8, '"' as u8, ':' as u8, ' ' as u8]
}

pub fn l_wb_w_v() -> (r: Vec<u8>)
    ensures
        r@ == l_wb_w(),
{
    let mut v: Vec<u8> = Vec::new();
    v.push(',' as u8);
    v.push('\n' as u8);
    v.push(' ' as u8);
    v.push(' ' as u8);
    v.push(' ' as u8);
    v.push(' ' as u8);
    v.push('"' as u8);
    v.push('w' as u8);
    v.push('i' as u8);
    v.push('d' as u8);
    v.push('t' as u8);
    v.push('h' as u8);
    v.push('"' as u8);
    v.push(':' as u8);
    v.push(' ' as u8);
    proof {
        assert(v@ =~= l_wb_w());
    }
    v
}

pub open spec fn l_wb_h() -> Seq<u8> {
    seq![',' as u8, '\n' as u8, ' ' as u8, ' ' as u8, ' ' as u8, ' ' as u8, '"' as u8, 'h' as u8, 'e' as u8, 'i' as u8, 'g' as u8, 'h' as u8, 't' as u8, '"' as u8, ':' as u8, ' ' as u8]
}

pub fn l_wb_h_v() -> (r: Vec<u8>)
    ensures
        r@ == l_wb_h(),
{
    let mut v: Vec<u8> = Vec::new();
    v.push(',' as u8);
    v.push('\n' as u8);
    v.push(' ' as u8);
    v.push(' ' as u8);
    v.push(' ' as u8);
    v.push(' ' as u8);
    v.push('"' as u8);
    v.push('h' as u8);
    v.push('e' as u8);
    v.push('i' as u8);
    v.push('g' as u8);
    v.push('h' as u8);
    v.push('t' as u8);
    v.push('"' as u8);
    v.push(':' as u8);
    v.push(' ' as u8);
    proof {
        assert(v@ =~= l_wb_h());
    }
    v
}

pub open spec fn l_wb_m() -> Seq<u8> {
    seq![',' as u8, '\n' as u8, ' ' as u8, ' ' as u8, ' ' as u8, ' ' as u8, '"' as u8, 'i' as u8, 's' as u8, '_' as u8, 'm' as u8, 'a' as u8, 'x' as u8, 'i' as u8, 'm' as u8, 'i' as u8, 'z' as u8, 'e' as u8, 'd' as u8, '"' as u8, ':' as u8, ' ' as u8]
}

pub fn l_wb_m_v() -> (r: Vec<u8>)
    ensures
        r@ == l_wb_m(),
{
    let mut v: Vec<u8> = Vec::new();
    v.push(',' as u8);
    v.push('\n' as u8);
    v.push(' ' as u8);
    v.push(' ' as u8);
    v.push(' ' as u8);
    v.push(' ' as u8);
    v.push('"' as u8);
    v.push('i' as u8);
    v.push('s' as u8);
    v.push('_' as u8);
    v.push('m' as u8);
    v.push('a' as u8);
    v.push('x' as u8);
    v.push('i' as u8);
    v.push('m' as u8);
    v.push('i' as u8);
    v.push('z' as u8);
    v.push('e' as u8);
    v.push('d' as u8);
    v.push('"' as u8);
    v.push(':' as u8);
    v.push(' ' as u8);
    proof {
        assert(v@ =~= l_wb_m());
    }
    v
}

pub open spec fn l_ps_lw() -> Seq<u8> {
    seq!['{' as u8, '\n' as u8, ' ' as u8, ' ' as u8, ' ' as u8, ' ' as u8, '"' as u8, 'l' as u8, 'e' as u8, 'f' as u8, 't' as u8, '_' as u8, 'p' as u8, 'a' as u8, 'n' as u8, 'e' as u8, 'l' as u8, '_' as u8, 'w' as u8, 'i' as u8, 'd' as u8, 't' as u8, 'h' as u8, '"' as u8, ':' as u8, ' ' as u8]
}

pub fn l_ps_lw_v() -> (r: Vec<u8>)
    ensures
        r@ == l_ps_lw(),
{
    let mut v: Vec<u8> = Vec::new();
    v.push('{' as u8);
    v.push('\n' as u8);
    v.push(' ' as u8);
    v.push(' ' as u8);
    v.push(' ' as u8);
    v.push(' ' as u8);
    v.push('"' as u8);
    v.push('l' as u8);
    v.push('e' as u8);
    v.push('f' as u8);
    v.push('t' as u8);
    v.push('_' as u8);
    v.push('p' as u8);
    v.push('a' as u8);
    v.push('n' as u8);
    v.push('e' as u8);
    v.push('l' as u8);
    v.push('_' as u8);
    v.push('w' as u8);
    v.push('i' as u8);
    v.push('d' as u8);
    v.push('t' as u8);
    v.push('h' as u8);
    v.push('"' as u8);
    v.push(':' as u8);
    v.push(' ' as u8);
    proof {
        assert(v@ =~= l_ps_lw());
    }
    v
}

pub open spec fn l_ps_bh() -> Seq<u8> {
    seq![',' as u8, '\n' as u8, ' ' as u8, ' ' as u8, ' ' as u8, ' ' as u8, '"' as u8, 'b' as u8, 'o' as u8, 't' as u8, 't' as u8, 'o' as u8, 'm' as u8, '_' as u8, 'p' as u8, 'a' as u8, 'n' as u8, 'e' as u8, 'l' as u8, '_' as u8, 'h' as u8, 'e' as u8, 'i' as u8, 'g' as u8, 'h' as u8, 't' as u8, '"' as u8, ':' as u8, ' ' as u8]
}

pub fn l_ps_bh_v() -> (r: Vec<u8>)
    ensures
        r@ == l_ps_bh(),
{
    let mut v: Vec<u8> = Vec::new();
    v.push(',' as u8);
    v.push('\n' as u8);
    v.push(' ' as u8);
    v.push(' ' as u8);
    v.push(' ' as u8);
    v.push(' ' as u8);
    v.push('"' as u8);
    v.push('b' as u8);
    v.push('o' as u8);
    v.push('t' as u8);
    v.push('t' as u8);
    v.push('o' as u8);
    v.push('m' as u8);
    v.push('_' as u8);
    v.push('p' as u8);
    v.push('a' as u8);
    v.push('n' as u8);
    v.push('e' as u8);
    v.push('l' as u8);
    v.push('_' as u8);
    v.push('h' as u8);
    v.push('e' as u8);
    v.push('i' as u8);
    v.push('g' as u8);
    v.push('h' as u8);
    v.push('t' as u8);
    v.push('"' as u8);
    v.push(':' as u8);
    v.push(' ' as u8);
    proof {
        assert(v@ =~= l_ps_bh());
    }
    v
}

pub open spec fn l_ps_lt() -> Seq<u8> {
    seq![',' as u8, '\n' as u8, ' ' as u8, ' ' as u8, ' ' as u8, ' ' as u8, '"' as u8, 's' as u8, 'e' as u8, 'l' as u8, 'e' as u8, 'c' as u8, 't' as u8, 'e' as u8, 'd' as u8, '_' as u8, 'l' as u8, 'e' as u8, 'f' as u8, 't' as u8, '_' as u8, 't' as u8, 'a' as u8, 'b' as u8, '"' as u8, ':' as u8, ' ' as u8]
}

pub fn l_ps_lt_v() -> (r: Vec<u8>)
    ensures
        r@ == l_ps_lt(),
{
    let mut v: Vec<u8> = Vec::new();
    v.push(',' as u8);
    v.push('\n' as u8);
    v.push(' ' as u8);
    v.push(' ' as u8);
    v.push(' ' as u8);
    v.push(' ' as u8);
    v.push('"' as u8);
    v.push('s' as u8);
    v.push('e' as u8);
    v.push('l' as u8);
    v.push('e' as u8);
    v.push('c' as u8);
    v.push('t' as u8);
    v.push('e' as u8);
    v.push('d' as u8);
    v.push('_' as u8);
    v.push('l' as u8);
    v.push('e' as u8);
    v.push('f' as u8);
    v.push('t' as u8);
    v.push('_' as u8);
    v.push('t' as u8);
    v.push('a' as u8);
    v.push('b' as u8);
    v.push('"' as u8);
    v.push(':' as u8);
    v.push(' ' as u8);
    proof {
        assert(v@ =~= l_ps_lt());
    }
    v
}

pub open spec fn l_ps_mt() -> Seq<u8> {
    seq![',' as u8, '\n' as u8, ' ' as u8, ' ' as u8, ' ' as u8, ' ' as u8, '"' as u8, 's' as u8, 'e' as u8, 'l' as u8, 'e' as u8, 'c' as u8, 't' as u8, 'e' as u8, 'd' as u8, '_' as u8, 'm' as u8, 'a' as u8, 'i' as u8, 'n' as u8, '_' as u8, 't' as u8, 'a' as u8, 'b' as u8, '"' as u8, ':' as u8, ' ' as u8]
}

pub fn l_ps_mt_v() -> (r: Vec<u8>)
    ensures
        r@ == l_ps_mt(),
{
    let mut v: Vec<u8> = Vec::new();
    v.push(',' as u8);
    v.push('\n' as u8);
    v.push(' ' as u8);
    v.push(' ' as u8);
    v.push(' ' as u8);
    v.push(' ' as u8);
    v.push('"' as u8);
    v.push('s' as u8);
    v.push('e' as u8);
    v.push('l' as u8);
    v.push('e' as u8);
    v.push('c' as u8);
    v.push('t' as u8);
    v.push('e' as u8);
    v.push('d' as u8);
    v.push('_' as u8);
    v.push('m' as u8);
    v.push('a' as u8);
    v.push('i' as u8);
    v.push('n' as u8);
    v.push('_' as u8);
    v.push('t' as u8);
    v.push('a' as u8);
    v.push('b' as u8);
    v.push('"' as u8);
    v.push(':' as u8);
    v.push(' ' as u8);
    proof {
        assert(v@ =~= l_ps_mt());
    }
    v
}

pub open spec fn l_ps_bt() -> Seq<u8> {
    seq![',' as u8, '\n' as u8, ' ' as u8, ' ' as u8, ' ' as u8, ' ' as u8, '"' as u8, 's' as u8, 'e' as u8, 'l' as u8, 'e' as u8, 'c' as u8, 't' as u8, 'e' as u8, 'd' as u8, '_' as u8, 'b' as u8, 'o' as u8, 't' as u8, 't' as u8, 'o' as u8, 'm' as u8, '_' as u8, 't' as u8, 'a' as u8, 'b' as u8, '"' as u8, ':' as u8, ' ' as u8]
}

pub fn l_ps_bt_v() -> (r: Vec<u8>)
    ensures
        r@ == l_ps_bt(),
{
    let mut v: Vec<u8> = Vec::new();
    v.push(',' as u8);
    v.push('\n' as u8);
    v.push(' ' as u8);
    v.push(' ' as u8);
    v.push(' ' as u8);
    v.push(' ' as u8);
    v.push('"' as u8);
    v.push('s' as u8);
    v.push('e' as u8);
    v.push('l' as u8);
    v.push('e' as u8);
    v.push('c' as u8);
    v.push('t' as u8);
    v.push('e' as u8);
    v.push('d' as u8);
    v.push('_' as u8);
    v.push('b' as u8);
    v.push('o' as u8);
    v.push('t' as u8);
    v.push('t' as u8);
    v.push('o' as u8);
    v.push('m' as u8);
    v.push('_' as u8);
    v.push('t' as u8);
    v.push('a' as u8);
    v.push('b' as u8);
    v.push('"' as u8);
    v.push(':' as u8);
    v.push(' ' as u8);
    proof {
        assert(v@ =~= l_ps_bt());
    }
    v
}

pub open spec fn l_obj_close() -> Seq<u8> {
    seq!['\n' as u8, ' ' as u8, ' ' as u8, '}' as u8]
}

pub fn l_obj_close_v() -> (r: Vec<u8>)
    ensures
        r@ == l_obj_close(),
{
    let mut v: Vec<u8> = Vec::new();
    v.push('\n' as u8);
    v.push(' ' as u8);
    v.push(' ' as u8);
    v.push('}' as u8);
    proof {
        assert(v@ =~= l_obj_close());
    }
    v
}

pub open spec fn l_tab_name() -> Seq<u8> {
    seq!['{' as u8, '\n' as u8, ' ' as u8, ' ' as u8, ' ' as u8, ' ' as u8, ' ' as u8, ' ' as u8, '"' as u8, 'n' as u8, 'a' as u8, 'm' as u8, 'e' as u8, '"' as u8, ':' as u8, ' ' as u8]
}

pub fn l_tab_name_v() -> (r: Vec<u8>)
    ensures
        r@ == l_tab_name(),
{
    let mut v: Vec<u8> = Vec::new();
    v.push('{' as u8);
    v.push('\n' as u8);
    v.push(' ' as u8);
    v.push(' ' as u8);
    v.push(' ' as u8);
    v.push(' ' as u8);
    v.push(' ' as u8);
    v.push(' ' as u8);
    v.push('"' as u8);
    v.push('n' as u8);
    v.push('a' as u8);
    v.push('m' as u8);
    v.push('e' as u8);
    v.push('"' as u8);
    v.push(':' as u8);
    v.push(' ' as u8);
    proof {
        assert(v@ =~= l_tab_name());
    }
    v
}

pub open spec fn l_tab_path() -> Seq<u8> {
    seq![',' as u8, '\n' as u8, ' ' as u8, ' ' as u8, ' ' as u8, ' ' as u8, ' ' as u8, ' ' as u8, '"' as u8, 'f' as u8, 'i' as u8, 'l' as u8, 'e' as u8, '_' as u8, 'p' as u8, 'a' as u8, 't' as u8, 'h' as u8, '"' as u8, ':' as u8, ' ' as u8]
}

pub fn l_tab_path_v() -> (r: Vec<u8>)
    ensures
        r@ == l_tab_path(),
{
    let mut v: Vec<u8> = Vec::new();
    v.push(',' as u8);
    v.push('\n' as u8);
    v.push(' ' as u8);
    v.push(' ' as u8);
    v.push(' ' as u8);
    v.push(' ' as u8);
    v.push(' ' as u8);
    v.push(' ' as u8);
    v.push('"' as u8);
    v.push('f' as u8);
    v.push('i' as u8);
    v.push('l' as u8);
    v.push('e' as u8);
    v.push('_' as u8);
    v.push('p' as u8);
    v.push('a' as u8);
    v.push('t' as u8);
    v.push('h' as u8);
    v.push('"' as u8);
    v.push(':' as u8);
    v.push(' ' as u8);
    proof {
        assert(v@ =~= l_tab_path());
    }
    v
}

pub open spec fn l_tab_dirty() -> Seq<u8> {
    seq![',' as u8, '\n' as u8, ' ' as u8, ' ' as u8, ' ' as u8, ' ' as u8, ' ' as u8, ' ' as u8, '"' as u8, 'i' as u8, 's' as u8, '_' as u8, 'd' as u8, 'i' as u8, 'r' as u8, 't' as u8, 'y' as u8, '"' as u8, ':' as u8, ' ' as u8]
}

pub fn l_tab_dirty_v() -> (r: Vec<u8>)
    ensures
        r@ == l_tab_dirty(),
{
    let mut v: Vec<u8> = Vec::new();
    v.push(',' as u8);
    v.push('\n' as u8);
    v.push(' ' as u8);
    v.push(' ' as u8);
    v.push(' ' as u8);
    v.push(' ' as u8);
    v.push(' ' as u8);
    v.push(' ' as u8);
    v.push('"' as u8);
    v.push('i' as u8);
    v.push('s' as u8);
    v.push('_' as u8);
    v.push('d' as u8);
    v.push('i' as u8);
    v.push('r' as u8);
    v.push('t' as u8);
    v.push('y' as u8);
    v.push('"' as u8);
    v.push(':' as u8);
    v.push(' ' as u8);
    proof {
        assert(v@ =~= l_tab_dirty());
    }
    v
}

pub open spec fn l_tab_close() -> Seq<u8> {
    seq!['\n' as u8, ' ' as u8, ' ' as u8, ' ' as u8, ' ' as u8, '}' as u8]
}

pub fn l_tab_close_v() -> (r: Vec<u8>)
    ensures
        r@ == l_tab_close(),
{
    let mut v: Vec<u8> = Vec::new();
    v.push('\n' as u8);
    v.push(' ' as u8);
    v.push(' ' as u8);
    v.push(' ' as u8);
    v.push(' ' as u8);
    v.push('}' as u8);
    proof {
        assert(v@ =~= l_tab_close());
    }
    v
}

pub open spec fn l_arr_empty() -> Seq<u8> {
    seq!['[' as u8, ']' as u8]
}

pub fn l_arr_empty_v() -> (r: Vec<u8>)
    ensures
        r@ == l_arr_empty(),
{
    let mut v: Vec<u8> = Vec::new();
    v.push('[' as u8);
    v.push(']' as u8);
    proof {
        assert(v@ =~= l_arr_empty());
    }
    v
}

pub open spec fn l_arr_open() -> Seq<u8> {
    seq!['[' as u8, '\n' as u8, ' ' as u8, ' ' as u8, ' ' as u8, ' ' as u8]
}

pub fn l_arr_open_v() -> (r: Vec<u8>)
    ensures
        r@ == l_arr_open(),
{
    let mut v: Vec<u8> = Vec::new();
    v.push('[' as u8);
    v.push('\n' as u8);
    v.push(' ' as u8);
    v.push(' ' as u8);
    v.push(' ' as u8);
    v.push(' ' as u8);
    proof {
        assert(v@ =~= l_arr_open());
    }
    v
}

pub open spec fn l_arr_comma() -> Seq<u8> {
    seq![',' as u8, '\n' as u8, ' ' as u8, ' ' as u8, ' ' as u8, ' ' as u8]
}

pub fn l_arr_comma_v() -> (r: Vec<u8>)
    ensures
        r@ == l_arr_comma(),
{
    let mut v: Vec<u8> = Vec::new();
    v.push(',' as u8);
    v.push('\n' as u8);
    v.push(' ' as u8);
    v.push(' ' as u8);
    v.push(' ' as u8);
    v.push(' ' as u8);
    proof {
        assert(v@ =~= l_arr_comma());
    }
    v
}

pub open spec fn l_arr_close() -> Seq<u8> {
    seq!['\n' as u8, ' ' as u8, ' ' as u8, ']' as u8]
}

pub fn l_arr_close_v() -> (r: Vec<u8>)
    ensures
        r@ == l_arr_close(),
{
    let mut v: Vec<u8> = Vec::new();
    v.push('\n' as u8);
    v.push(' ' as u8);
    v.push(' ' as u8);
    v.push(']' as u8);
    proof {
        assert(v@ =~= l_arr_close());
    }
    v
}


} // verus!
