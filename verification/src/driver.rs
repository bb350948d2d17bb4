//! Choosing the rendering of a plan for output.
use vstd::prelude::*;
use crate::planner::{plan_script, plan_text, render_ros2_script, render_text, RobotPlan};

verus! {

/// The ROS2 script draft when `ros2_script` is set, the readable text
/// otherwise.
pub fn render_output(plan: &RobotPlan, ros2_script: bool) -> (out: String)
    ensures
        out@ == if ros2_script {
            plan_script(plan@)
        } else {
            plan_text(plan@)
        },
{
    if ros2_script {
        render_ros2_script(plan)
    } else {
        render_text(plan)
    }
}

} // verus!
