use neotop::help_menu::{HelpMenu, TEXT_HEIGHT, TEXT_WIDTH};
use neotop::layout::{
    halves, pick_areas, split_area, whole, widget_areas, Constraint, Direction, Rect, WidgetAreas,
};

fn rect(x: u16, y: u16, width: u16, height: u16) -> Rect {
    Rect { x, y, width, height }
}

#[test]
fn help_menu_holds_its_text() {
    let menu = HelpMenu::new();
    assert_eq!(menu.len(), 24);
    assert_eq!(menu.line(0), "Quit: q or <C-c>");
    assert_eq!(menu.line(13), "  - x: kill selected process or process group");
    assert_eq!(menu.line(23), "    - <C-c> and <Escape>: clear filter");
    for i in 0..menu.len() {
        assert!(menu.line(i).chars().count() <= usize::from(TEXT_WIDTH));
    }
    assert!(menu.len() <= usize::from(TEXT_HEIGHT));
}

#[test]
fn help_menu_is_centred() {
    let menu = HelpMenu::new();
    assert_eq!(menu.get_rect(rect(0, 0, 100, 50)), rect(26, 10, 48, 29));
    assert_eq!(menu.get_rect(rect(0, 0, 49, 30)), rect(0, 0, 48, 29));
    assert_eq!(menu.get_rect(rect(0, 0, 50, 31)), rect(1, 1, 48, 29));
    assert_eq!(menu.get_rect(rect(0, 0, 48, 29)), rect(0, 0, 48, 29));
    assert_eq!(menu.get_rect(rect(0, 0, u16::MAX, u16::MAX)), rect(32743, 32753, 48, 29));
}

#[test]
fn help_menu_is_cut_to_a_small_screen() {
    let menu = HelpMenu::new();
    assert_eq!(menu.get_rect(rect(0, 0, 40, 20)), rect(0, 0, 40, 20));
    assert_eq!(menu.get_rect(rect(0, 0, 100, 10)), rect(26, 0, 48, 10));
    assert_eq!(menu.get_rect(rect(0, 0, 10, 100)), rect(0, 35, 10, 29));
    assert_eq!(menu.get_rect(rect(0, 0, 0, 0)), rect(0, 0, 0, 0));
    assert_eq!(menu.get_rect(rect(7, 9, 100, 50)), rect(26, 10, 48, 29));
}

#[test]
fn split_area_halves_an_area() {
    assert_eq!(
        split_area(Direction::Horizontal, &halves(), rect(0, 0, 10, 2)),
        Some(vec![rect(0, 0, 5, 2), rect(5, 0, 5, 2)])
    );
    assert_eq!(
        split_area(Direction::Vertical, &halves(), rect(2, 2, 10, 10)),
        Some(vec![rect(2, 2, 10, 5), rect(2, 7, 10, 5)])
    );
}

#[test]
fn split_area_follows_ratios_and_percentages() {
    let thirds = vec![Constraint::Ratio(1, 3), Constraint::Ratio(2, 3)];
    assert_eq!(
        split_area(Direction::Horizontal, &thirds, rect(0, 0, 9, 2)),
        Some(vec![rect(0, 0, 3, 2), rect(3, 0, 6, 2)])
    );
    assert_eq!(
        split_area(Direction::Horizontal, &whole(), rect(4, 5, 30, 7)),
        Some(vec![rect(4, 5, 30, 7)])
    );
    let quarters = vec![Constraint::Percentage(25), Constraint::Percentage(75)];
    assert_eq!(
        split_area(Direction::Vertical, &quarters, rect(0, 0, 3, 40)),
        Some(vec![rect(0, 0, 3, 10), rect(0, 10, 3, 30)])
    );
    assert_eq!(split_area(Direction::Vertical, &Vec::new(), rect(0, 0, 3, 40)), Some(Vec::new()));
}

#[test]
fn split_area_refuses_what_the_solver_cannot_take() {
    assert_eq!(split_area(Direction::Horizontal, &whole(), rect(0, 0, 656, 10)), None);
    assert!(split_area(Direction::Horizontal, &whole(), rect(0, 0, 655, 10)).is_some());
    assert!(split_area(Direction::Vertical, &whole(), rect(0, 0, 656, 10)).is_some());
    assert_eq!(split_area(Direction::Vertical, &whole(), rect(0, 0, 10, 656)), None);
    let no_denominator = vec![Constraint::Ratio(1, 0)];
    assert_eq!(split_area(Direction::Horizontal, &no_denominator, rect(0, 0, 10, 10)), None);
    assert_eq!(split_area(Direction::Horizontal, &halves(), rect(65535, 0, 1, 1)), None);
    assert_eq!(split_area(Direction::Horizontal, &halves(), rect(0, 65530, 1, 6)), None);
    assert!(split_area(Direction::Horizontal, &halves(), rect(0, 65530, 2, 5)).is_some());
}

#[test]
fn constraints_of_halves_and_whole() {
    assert_eq!(halves(), vec![Constraint::Ratio(1, 2), Constraint::Ratio(1, 2)]);
    assert_eq!(whole(), vec![Constraint::Percentage(100)]);
}

#[test]
fn widget_areas_of_a_common_terminal() {
    assert_eq!(
        widget_areas(rect(0, 0, 80, 24)),
        Some(WidgetAreas {
            cpu_and_mem: rect(0, 0, 80, 12),
            misc_info: rect(0, 12, 40, 12),
            proc: rect(40, 12, 40, 12),
        })
    );
}

#[test]
fn widget_areas_without_layout() {
    assert_eq!(widget_areas(rect(0, 0, 700, 24)), None);
    assert_eq!(widget_areas(rect(65000, 0, 700, 24)), None);
    assert!(widget_areas(rect(0, 0, 0, 0)).is_some());
}

#[test]
fn widget_areas_of_odd_and_small_terminals() {
    for (width, height) in [(81, 25), (1, 1), (2, 3), (3, 2), (120, 43), (655, 200)] {
        let frame = rect(0, 0, width, height);
        let areas = widget_areas(frame).unwrap();
        let WidgetAreas { cpu_and_mem, misc_info, proc } = areas;
        for area in [cpu_and_mem, misc_info, proc] {
            assert!(area.x + area.width <= width);
            assert!(area.y + area.height <= height);
        }
        assert!(cpu_and_mem.y + cpu_and_mem.height <= misc_info.y);
        assert!(cpu_and_mem.y + cpu_and_mem.height <= proc.y);
        assert!(misc_info.x + misc_info.width <= proc.x);
        assert_eq!(cpu_and_mem.width, width);
        assert_eq!(misc_info.width + proc.width, width);
        assert_eq!(cpu_and_mem.height + proc.height, height);
        assert_eq!(misc_info.height, proc.height);
    }
    assert_eq!(
        widget_areas(rect(5, 7, 20, 10)),
        Some(WidgetAreas {
            cpu_and_mem: rect(5, 7, 20, 5),
            misc_info: rect(5, 12, 10, 5),
            proc: rect(15, 12, 10, 5),
        })
    );
}

#[test]
fn pick_areas_takes_parts_that_stand_arranged() {
    let frame = rect(0, 0, 80, 24);
    let top = vec![rect(0, 0, 80, 12)];
    let bottom = vec![rect(0, 12, 40, 12), rect(40, 12, 40, 12)];
    assert_eq!(
        pick_areas(frame, &top, &bottom),
        Some(WidgetAreas {
            cpu_and_mem: rect(0, 0, 80, 12),
            misc_info: rect(0, 12, 40, 12),
            proc: rect(40, 12, 40, 12),
        })
    );
    let gaps = vec![rect(3, 14, 30, 5), rect(50, 13, 20, 11)];
    assert_eq!(
        pick_areas(frame, &vec![rect(1, 1, 70, 10)], &gaps),
        Some(WidgetAreas {
            cpu_and_mem: rect(1, 1, 70, 10),
            misc_info: rect(3, 14, 30, 5),
            proc: rect(50, 13, 20, 11),
        })
    );
    let nothing = rect(0, 0, 0, 0);
    assert_eq!(
        pick_areas(nothing, &vec![nothing], &vec![nothing, nothing]),
        Some(WidgetAreas { cpu_and_mem: nothing, misc_info: nothing, proc: nothing })
    );
}

#[test]
fn pick_areas_refuses_other_parts() {
    let frame = rect(0, 0, 80, 24);
    let top = vec![rect(0, 0, 80, 12)];
    let bottom = vec![rect(0, 12, 40, 12), rect(40, 12, 40, 12)];
    assert_eq!(pick_areas(frame, &Vec::new(), &bottom), None);
    assert_eq!(pick_areas(frame, &vec![top[0], top[0]], &bottom), None);
    assert_eq!(pick_areas(frame, &top, &vec![bottom[0]]), None);
    assert_eq!(pick_areas(frame, &top, &vec![bottom[0], bottom[1], bottom[1]]), None);
    // a part beyond the right or the lower edge of the frame
    assert_eq!(pick_areas(frame, &vec![rect(0, 0, 81, 12)], &bottom), None);
    assert_eq!(pick_areas(frame, &top, &vec![bottom[0], rect(40, 12, 41, 12)]), None);
    assert_eq!(pick_areas(frame, &top, &vec![rect(0, 12, 40, 13), bottom[1]]), None);
    assert_eq!(pick_areas(frame, &top, &vec![bottom[0], rect(65535, 12, 40, 12)]), None);
    // a part before the corner of the frame
    assert_eq!(pick_areas(rect(1, 0, 80, 24), &top, &bottom), None);
    assert_eq!(pick_areas(rect(0, 1, 80, 24), &top, &bottom), None);
    // the upper widget reaching into the lower row
    assert_eq!(pick_areas(frame, &vec![rect(0, 0, 80, 13)], &bottom), None);
    assert_eq!(pick_areas(frame, &top, &vec![bottom[0], rect(40, 11, 40, 12)]), None);
    // the lower widgets side by side the wrong way, or one over the other
    assert_eq!(pick_areas(frame, &top, &vec![bottom[1], bottom[0]]), None);
    assert_eq!(pick_areas(frame, &top, &vec![rect(0, 12, 41, 12), bottom[1]]), None);
}
